//! The JSON values the daemon's helpers exchange: the browser bridge's
//! status reply and the compositor's window listing. serde_json does the
//! parsing behind trusted wrappers; its results are functions of the
//! text alone and carry names, so everything read out of a document is
//! pinned to those names.

use vstd::prelude::*;

verus! {

#[verifier::external_type_specification]
#[verifier::external_body]
pub struct ExValue(serde_json::Value);

#[verifier::external_type_specification]
#[verifier::external_body]
pub struct ExError(serde_json::Error);

/// Whether serde_json parses a text as a JSON document.
pub uninterp spec fn spec_json_parses(s: Seq<char>) -> bool;

/// The document serde_json parses a text into, when it parses.
pub uninterp spec fn spec_json_doc(s: Seq<char>) -> serde_json::Value;

/// The member a document holds under a key, as `Value::get` finds it.
pub uninterp spec fn spec_json_member(v: serde_json::Value, key: Seq<char>) -> Option<
    serde_json::Value,
>;

/// The boolean a value coerces to, as `Value::as_bool`.
pub uninterp spec fn spec_json_bool(v: serde_json::Value) -> Option<bool>;

/// The unsigned number a value coerces to, as `Value::as_u64`.
pub uninterp spec fn spec_json_u64(v: serde_json::Value) -> Option<u64>;

/// The signed number a value coerces to, as `Value::as_i64`.
pub uninterp spec fn spec_json_i64(v: serde_json::Value) -> Option<i64>;

/// The string a value holds, as `Value::as_str`.
pub uninterp spec fn spec_json_str(v: serde_json::Value) -> Option<Seq<char>>;

/// The elements a value holds, as `Value::as_array`.
pub uninterp spec fn spec_json_array(v: serde_json::Value) -> Option<Seq<serde_json::Value>>;

/// Relies on serde_json's `from_str::<Value>`: whether a text parses,
/// and into what, depend on the text alone.
#[verifier::external_body]
fn json_from_str(s: &str) -> (r: Result<serde_json::Value, serde_json::Error>)
    ensures
        (r is Ok) == spec_json_parses(s@),
        (r matches Ok(v) ==> v == spec_json_doc(s@)),
{
    serde_json::from_str::<serde_json::Value>(s)
}

/// Parse a JSON document, dropping the error detail.
pub fn json_parse(s: &str) -> (r: Option<serde_json::Value>)
    ensures
        (r is Some) == spec_json_parses(s@),
        (r matches Some(v) ==> v == spec_json_doc(s@)),
{
    match json_from_str(s) {
        Ok(v) => Some(v),
        Err(_) => None,
    }
}

/// Relies on serde_json's `Value::get` with a string key: the member of
/// an object under that key, a function of the value and the key.
#[verifier::external_body]
fn value_get<'a>(v: &'a serde_json::Value, key: &str) -> (r: Option<&'a serde_json::Value>)
    ensures
        (r is Some) == (spec_json_member(*v, key@) is Some),
        (r matches Some(x) ==> Some(*x) == spec_json_member(*v, key@)),
{
    v.get(key)
}

/// Relies on serde_json's `Value::as_bool`.
#[verifier::external_body]
fn value_as_bool(v: &serde_json::Value) -> (r: Option<bool>)
    ensures
        r == spec_json_bool(*v),
{
    v.as_bool()
}

/// Relies on serde_json's `Value::as_u64`.
#[verifier::external_body]
fn value_as_u64(v: &serde_json::Value) -> (r: Option<u64>)
    ensures
        r == spec_json_u64(*v),
{
    v.as_u64()
}

/// Relies on serde_json's `Value::as_i64`.
#[verifier::external_body]
fn value_as_i64(v: &serde_json::Value) -> (r: Option<i64>)
    ensures
        r == spec_json_i64(*v),
{
    v.as_i64()
}

/// Relies on serde_json's `Value::as_str`.
#[verifier::external_body]
fn value_as_str<'a>(v: &'a serde_json::Value) -> (r: Option<&'a str>)
    ensures
        (r is Some) == (spec_json_str(*v) is Some),
        (r matches Some(x) ==> Some(x@) == spec_json_str(*v)),
{
    v.as_str()
}

/// Relies on serde_json's `Value::as_array`.
#[verifier::external_body]
fn value_as_array<'a>(v: &'a serde_json::Value) -> (r: Option<&'a Vec<serde_json::Value>>)
    ensures
        (r is Some) == (spec_json_array(*v) is Some),
        (r matches Some(a) ==> Some(a@) == spec_json_array(*v)),
{
    v.as_array()
}

/// The boolean member under a key, defaulting to false.
pub open spec fn spec_bool_member_or(doc: serde_json::Value, key: Seq<char>) -> bool {
    match spec_json_member(doc, key) {
        Some(p) => match spec_json_bool(p) {
            Some(b) => b,
            None => false,
        },
        None => false,
    }
}

/// The unsigned member under a key, defaulting to zero.
pub open spec fn spec_u64_member_or(doc: serde_json::Value, key: Seq<char>) -> u64 {
    match spec_json_member(doc, key) {
        Some(p) => match spec_json_u64(p) {
            Some(n) => n,
            None => 0,
        },
        None => 0,
    }
}

/// The signed numbers among a value sequence, in order.
pub open spec fn spec_i64_items(items: Seq<serde_json::Value>) -> Seq<i64>
    decreases items.len(),
{
    if items.len() == 0 {
        Seq::empty()
    } else {
        let rest = spec_i64_items(items.drop_last());
        match spec_json_i64(items.last()) {
            Some(n) => rest.push(n),
            None => rest,
        }
    }
}

/// The playing-tab numbers of a bridge reply: the signed numbers of the
/// `playing_tabs` array, or none without a usable array.
pub open spec fn spec_bridge_tabs(doc: serde_json::Value) -> Seq<i64> {
    match spec_json_member(doc, "playing_tabs"@) {
        Some(t) => match spec_json_array(t) {
            Some(a) => spec_i64_items(a),
            None => Seq::empty(),
        },
        None => Seq::empty(),
    }
}

/// The browser bridge's status reply.
#[derive(Debug)]
pub struct BrowserStatus {
    pub playing: bool,
    pub tab_count: u64,
    pub playing_tabs: Vec<i64>,
}

/// Read a bridge status reply: `{playing, tab_count, playing_tabs}`,
/// each field falling back to its zero value when absent or mistyped,
/// as the bridge protocol allows. `None` exactly on unparsable text.
pub fn parse_bridge_status(text: &str) -> (r: Option<BrowserStatus>)
    ensures
        (r is Some) == spec_json_parses(text@),
        (r matches Some(b) ==> ({
            let doc = spec_json_doc(text@);
            &&& b.playing == spec_bool_member_or(doc, "playing"@)
            &&& b.tab_count == spec_u64_member_or(doc, "tab_count"@)
            &&& b.playing_tabs@ == spec_bridge_tabs(doc)
        })),
{
    let v = match json_parse(text) {
        Some(v) => v,
        None => {
            return None;
        },
    };
    let playing = match value_get(&v, "playing") {
        Some(p) => match value_as_bool(p) {
            Some(b) => b,
            None => false,
        },
        None => false,
    };
    let tab_count = match value_get(&v, "tab_count") {
        Some(t) => match value_as_u64(t) {
            Some(n) => n,
            None => 0,
        },
        None => 0,
    };
    let mut playing_tabs: Vec<i64> = Vec::new();
    match value_get(&v, "playing_tabs") {
        Some(tabs) => {
            match value_as_array(tabs) {
                Some(arr) => {
                    let mut i: usize = 0;
                    while i < arr.len()
                        invariant
                            Some(arr@) == spec_json_array(
                                spec_json_member(
                                    spec_json_doc(text@),
                                    "playing_tabs"@,
                                ).unwrap(),
                            ),
                            spec_json_member(spec_json_doc(text@), "playing_tabs"@) is Some,
                            0 <= i <= arr@.len(),
                            playing_tabs@ =~= spec_i64_items(arr@.subrange(0, i as int)),
                        decreases arr@.len() - i,
                    {
                        proof {
                            assert(arr@.subrange(0, i + 1 as int).drop_last() =~= arr@.subrange(
                                0,
                                i as int,
                            ));
                        }
                        match value_as_i64(&arr[i]) {
                            Some(n) => playing_tabs.push(n),
                            None => {},
                        }
                        i = i + 1;
                    }
                    proof {
                        assert(arr@.subrange(0, arr@.len() as int) =~= arr@);
                    }
                },
                None => {},
            }
        },
        None => {},
    }
    Some(BrowserStatus { playing, tab_count, playing_tabs })
}

/// The identifier a window object reports: its `app_id` string, else
/// its `class` string.
pub open spec fn spec_client_id(v: serde_json::Value) -> Option<Seq<char>> {
    match spec_json_member(v, "app_id"@) {
        Some(x) => match spec_json_str(x) {
            Some(s) => Some(s),
            None => spec_class_of(v),
        },
        None => spec_class_of(v),
    }
}

/// The `class` string of a window object, when it has one.
pub open spec fn spec_class_of(v: serde_json::Value) -> Option<Seq<char>> {
    match spec_json_member(v, "class"@) {
        Some(x) => spec_json_str(x),
        None => None,
    }
}

/// The identifiers of a window listing, in order, objects without one
/// skipped.
pub open spec fn spec_client_ids(items: Seq<serde_json::Value>) -> Seq<Seq<char>>
    decreases items.len(),
{
    if items.len() == 0 {
        Seq::empty()
    } else {
        let rest = spec_client_ids(items.drop_last());
        match spec_client_id(items.last()) {
            Some(s) => rest.push(s),
            None => rest,
        }
    }
}

/// Read a compositor client listing: an array of window objects, each
/// identified by `app_id` or, failing that, `class`. `None` exactly on
/// unparsable text or a non-array document.
pub fn parse_hyprland_clients(text: &str) -> (r: Option<Vec<String>>)
    ensures
        (r is Some) == (spec_json_parses(text@) && spec_json_array(spec_json_doc(text@))
            is Some),
        (r matches Some(ids) ==> Some(ids@.map_values(|s: String| s@)) == (match spec_json_array(
            spec_json_doc(text@),
        ) {
            Some(items) => Some(spec_client_ids(items)),
            None => None,
        })),
{
    let v = match json_parse(text) {
        Some(v) => v,
        None => {
            return None;
        },
    };
    let arr = match value_as_array(&v) {
        Some(a) => a,
        None => {
            return None;
        },
    };
    let mut ids: Vec<String> = Vec::new();
    let mut i: usize = 0;
    while i < arr.len()
        invariant
            Some(arr@) == spec_json_array(spec_json_doc(text@)),
            0 <= i <= arr@.len(),
            ids@.map_values(|s: String| s@) =~= spec_client_ids(arr@.subrange(0, i as int)),
        decreases arr@.len() - i,
    {
        proof {
            assert(arr@.subrange(0, i + 1 as int).drop_last() =~= arr@.subrange(0, i as int));
        }
        let ghost pre = ids@;
        let id = match value_get(&arr[i], "app_id") {
            Some(x) => value_as_str(x),
            None => None,
        };
        match id {
            Some(s) => {
                ids.push(s.to_owned());
                proof {
                    assert(ids@.map_values(|s: String| s@) =~= pre.map_values(
                        |s: String| s@,
                    ).push(s@));
                }
            },
            None => {
                match value_get(&arr[i], "class") {
                    Some(x) => {
                        match value_as_str(x) {
                            Some(s) => {
                                ids.push(s.to_owned());
                                proof {
                                    assert(ids@.map_values(|s: String| s@) =~= pre.map_values(
                                        |s: String| s@,
                                    ).push(s@));
                                }
                            },
                            None => {},
                        }
                    },
                    None => {},
                }
            },
        }
        i = i + 1;
    }
    proof {
        assert(arr@.subrange(0, arr@.len() as int) =~= arr@);
    }
    Some(ids)
}

} // verus!
