//! Application-based inhibition: matching window app-ids and process
//! names against the configured patterns.

use vstd::prelude::*;
use crate::config::AppInhibitPattern;
use crate::text;

verus! {

/// Whether a pattern is a valid regular expression, as the regex crate
/// decides when compiling it.
pub uninterp spec fn regex_compiles(pattern: Seq<char>) -> bool;

/// Whether a regular expression matches somewhere in a text, as the
/// regex crate decides.
pub uninterp spec fn regex_accepts(pattern: Seq<char>, text: Seq<char>) -> bool;

/// Relies on regex's `Regex::new` and `Regex::is_match`: whether the
/// pattern compiles, and whether it matches the text, are functions of
/// the two strings alone.
#[verifier::external_body]
fn regex_is_match(pattern: &str, text_in: &str) -> (r: Option<bool>)
    ensures
        (r is Some) == regex_compiles(pattern@),
        (r matches Some(b) ==> b == regex_accepts(pattern@, text_in@)),
{
    regex::Regex::new(pattern).ok().map(|re| re.is_match(text_in))
}

/// How a literal pattern matches a window's app-id: exact up to ASCII
/// case; a `.exe` suffix on the app-id is ignored; and the pattern's
/// last dot-separated segment may match the whole app-id.
pub open spec fn spec_app_id_matches(pattern: Seq<char>, app_id: Seq<char>) -> bool {
    ||| text::lower_of(pattern) == text::lower_of(app_id)
    ||| (".exe"@.is_suffix_of(app_id) && text::lower_of(pattern) == text::lower_of(
        app_id.subrange(0, app_id.len() - 4),
    ))
    ||| text::lower_of(text::tail_after(pattern, '.')) == text::lower_of(app_id)
}

/// Decide whether a literal pattern matches a window's app-id.
pub fn app_id_matches(pattern: &str, app_id: &str) -> (r: bool)
    ensures
        r == spec_app_id_matches(pattern@, app_id@),
{
    if text::eq_ignore_case(pattern, app_id) {
        return true;
    }
    if text::has_suffix(app_id, ".exe") {
        proof {
            reveal_strlit(".exe");
        }
        let n: usize = app_id.unicode_len();
        let stem = app_id.substring_char(0, n - 4);
        if text::eq_ignore_case(pattern, stem) {
            return true;
        }
    }
    let last = text::tail_after_str(pattern, '.');
    text::eq_ignore_case(last, app_id)
}

/// Whether one pattern claims a window's app-id: literals by the
/// app-id rule, regular expressions by the regex crate (an invalid
/// pattern matches nothing).
pub open spec fn pattern_matches_app(p: AppInhibitPattern, app_id: Seq<char>) -> bool {
    match p {
        AppInhibitPattern::Literal(s) => spec_app_id_matches(s@, app_id),
        AppInhibitPattern::Regex(src) => regex_compiles(src@) && regex_accepts(src@, app_id),
    }
}

/// Whether one pattern claims a process name: literals by exact
/// case-insensitive equality, regular expressions by the regex crate.
pub open spec fn pattern_matches_process(p: AppInhibitPattern, name: Seq<char>) -> bool {
    match p {
        AppInhibitPattern::Literal(s) => text::lower_of(s@) == text::lower_of(name),
        AppInhibitPattern::Regex(src) => regex_compiles(src@) && regex_accepts(src@, name),
    }
}

/// Whether any configured pattern claims the app-id.
pub open spec fn spec_should_inhibit_app(
    patterns: Seq<AppInhibitPattern>,
    app_id: Seq<char>,
) -> bool {
    exists|i: int| 0 <= i < patterns.len() && pattern_matches_app(#[trigger] patterns[i], app_id)
}

/// Whether any configured pattern claims the process name.
pub open spec fn spec_should_inhibit_process(
    patterns: Seq<AppInhibitPattern>,
    name: Seq<char>,
) -> bool {
    exists|i: int|
        0 <= i < patterns.len() && pattern_matches_process(#[trigger] patterns[i], name)
}

/// Decide whether a window's app-id is inhibited.
pub fn should_inhibit_for_app(patterns: &Vec<AppInhibitPattern>, app_id: &str) -> (r: bool)
    ensures
        r == spec_should_inhibit_app(patterns@, app_id@),
{
    let mut i: usize = 0;
    while i < patterns.len()
        invariant
            0 <= i <= patterns@.len(),
            forall|k: int| 0 <= k < i ==> !pattern_matches_app(#[trigger] patterns@[k], app_id@),
        decreases patterns@.len() - i,
    {
        let matched = match &patterns[i] {
            AppInhibitPattern::Literal(s) => app_id_matches(s.as_str(), app_id),
            AppInhibitPattern::Regex(src) => {
                match regex_is_match(src.as_str(), app_id) {
                    Some(m) => m,
                    None => false,
                }
            },
        };
        if matched {
            return true;
        }
        i = i + 1;
    }
    false
}

/// Decide whether a process name is inhibited.
pub fn should_inhibit_for_process(patterns: &Vec<AppInhibitPattern>, name: &str) -> (r: bool)
    ensures
        r == spec_should_inhibit_process(patterns@, name@),
{
    let mut i: usize = 0;
    while i < patterns.len()
        invariant
            0 <= i <= patterns@.len(),
            forall|k: int|
                0 <= k < i ==> !pattern_matches_process(#[trigger] patterns@[k], name@),
        decreases patterns@.len() - i,
    {
        let matched = match &patterns[i] {
            AppInhibitPattern::Literal(s) => text::eq_ignore_case(s.as_str(), name),
            AppInhibitPattern::Regex(src) => {
                match regex_is_match(src.as_str(), name) {
                    Some(m) => m,
                    None => false,
                }
            },
        };
        if matched {
            return true;
        }
        i = i + 1;
    }
    false
}

/// The app-ids of a listing that are inhibited.
pub fn matching_app_ids(patterns: &Vec<AppInhibitPattern>, ids: &Vec<String>) -> (r: Vec<String>)
    ensures
        r@ == ids@.filter(|s: String| spec_should_inhibit_app(patterns@, s@)),
{
    let mut out: Vec<String> = Vec::new();
    let mut i: usize = 0;
    while i < ids.len()
        invariant
            0 <= i <= ids@.len(),
            out@ =~= ids@.subrange(0, i as int).filter(
                |s: String| spec_should_inhibit_app(patterns@, s@),
            ),
        decreases ids@.len() - i,
    {
        proof {
            reveal_with_fuel(Seq::filter, 2);
            assert(ids@.subrange(0, i + 1 as int).drop_last() =~= ids@.subrange(0, i as int));
        }
        if should_inhibit_for_app(patterns, ids[i].as_str()) {
            out.push(ids[i].clone());
        }
        i = i + 1;
    }
    proof {
        assert(ids@.subrange(0, ids@.len() as int) =~= ids@);
    }
    out
}

/// The process names of a listing that are inhibited.
pub fn matching_process_names(patterns: &Vec<AppInhibitPattern>, names: &Vec<String>) -> (r: Vec<
    String,
>)
    ensures
        r@ == names@.filter(|s: String| spec_should_inhibit_process(patterns@, s@)),
{
    let mut out: Vec<String> = Vec::new();
    let mut i: usize = 0;
    while i < names.len()
        invariant
            0 <= i <= names@.len(),
            out@ =~= names@.subrange(0, i as int).filter(
                |s: String| spec_should_inhibit_process(patterns@, s@),
            ),
        decreases names@.len() - i,
    {
        proof {
            reveal_with_fuel(Seq::filter, 2);
            assert(names@.subrange(0, i + 1 as int).drop_last() =~= names@.subrange(
                0,
                i as int,
            ));
        }
        if should_inhibit_for_process(patterns, names[i].as_str()) {
            out.push(names[i].clone());
        }
        i = i + 1;
    }
    proof {
        assert(names@.subrange(0, names@.len() as int) =~= names@);
    }
    out
}

/// The app-ids a compositor window listing reports, one line per
/// window in the form `  App ID: "name"`.
pub fn parse_niri_windows(text_out: &str) -> (r: Vec<String>)
    ensures
        r@.map_values(|s: String| s@) == text::lines_of(text_out@).filter(
            |l: Seq<char>| "  App ID: "@.is_prefix_of(l),
        ).map_values(
            |l: Seq<char>|
                text::trim_char_of(l.subrange(10, l.len() as int), '"'),
        ),
{
    let lines = text::lines_str(text_out);
    let mut out: Vec<String> = Vec::new();
    let mut i: usize = 0;
    while i < lines.len()
        invariant
            lines@.map_values(|s: String| s@) == text::lines_of(text_out@),
            0 <= i <= lines@.len(),
            out@.map_values(|s: String| s@) =~= text::lines_of(text_out@).subrange(
                0,
                i as int,
            ).filter(|l: Seq<char>| "  App ID: "@.is_prefix_of(l)).map_values(
                |l: Seq<char>|
                    text::trim_char_of(l.subrange(10, l.len() as int), '"'),
            ),
        decreases lines@.len() - i,
    {
        proof {
            reveal_with_fuel(Seq::filter, 2);
            assert(text::lines_of(text_out@).subrange(0, i + 1 as int).drop_last()
                =~= text::lines_of(text_out@).subrange(0, i as int));
            assert(text::lines_of(text_out@)[i as int] == lines@[i as int]@);
        }
        match text::strip_prefix_str(lines[i].as_str(), "  App ID: ") {
            Some(rest) => {
                let name = text::trim_char_str(rest, '"');
                let ghost pre_out = out@;
                out.push(name.to_owned());
                proof {
                    let f = |l: Seq<char>| "  App ID: "@.is_prefix_of(l);
                    let g = |l: Seq<char>|
                        text::trim_char_of(l.subrange(10, l.len() as int), '"');
                    reveal_strlit("  App ID: ");
                    let line = text::lines_of(text_out@)[i as int];
                    assert(f(line));
                    assert(rest@ == line.subrange(10, line.len() as int));
                    assert(g(line) == name@);
                    assert(text::lines_of(text_out@).subrange(0, i + 1 as int).filter(f)
                        =~= text::lines_of(text_out@).subrange(0, i as int).filter(f).push(
                        line,
                    ));
                    assert(out@ == pre_out.push(out@.last()));
                    assert(out@.last()@ == name@);
                    assert(pre_out.map_values(|s: String| s@) == text::lines_of(
                        text_out@,
                    ).subrange(0, i as int).filter(f).map_values(g));
                    assert(text::lines_of(text_out@).subrange(0, i as int).filter(f).push(
                        line,
                    ).map_values(g) =~= text::lines_of(text_out@).subrange(0, i as int).filter(
                        f,
                    ).map_values(g).push(g(line)));
                    assert(out@.map_values(|s: String| s@) =~= pre_out.map_values(
                        |s: String| s@,
                    ).push(name@));
                    assert(text::lines_of(text_out@).subrange(0, i + 1 as int).filter(
                        f,
                    ).map_values(g) =~= out@.map_values(|s: String| s@));
                }
            },
            None => {
                proof {
                    let f = |l: Seq<char>| "  App ID: "@.is_prefix_of(l);
                    let g = |l: Seq<char>|
                        text::trim_char_of(l.subrange(10, l.len() as int), '"');
                    let line = text::lines_of(text_out@)[i as int];
                    assert(!f(line));
                    assert(text::lines_of(text_out@).subrange(0, i + 1 as int).filter(f)
                        =~= text::lines_of(text_out@).subrange(0, i as int).filter(f));
                    assert(text::lines_of(text_out@).subrange(0, i + 1 as int).filter(
                        f,
                    ).map_values(g) =~= out@.map_values(|s: String| s@));
                }
            },
        }
        i = i + 1;
    }
    proof {
        assert(text::lines_of(text_out@).subrange(
            0,
            text::lines_of(text_out@).len() as int,
        ) =~= text::lines_of(text_out@));
    }
    out
}

} // verus!
