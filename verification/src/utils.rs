//! Recognising trackers of private sites.
use vstd::prelude::*;
use vstd::utf8::is_ascii_chars;
use crate::text::{occurs_at, seq_contains, str_contains};

verus! {

/// `c` lower-cased as ASCII: `A`-`Z` become `a`-`z`, all else is kept.
pub open spec fn ascii_lower_char(c: char) -> char {
    if 'A' <= c && c <= 'Z' {
        ((c as int) + 32) as char
    } else {
        c
    }
}

/// `c` upper-cased as ASCII: `a`-`z` become `A`-`Z`, all else is kept.
pub open spec fn ascii_upper_char(c: char) -> char {
    if 'a' <= c && c <= 'z' {
        ((c as int) - 32) as char
    } else {
        c
    }
}

/// `s` with every ASCII letter lower-cased.
pub open spec fn ascii_lowercase(s: Seq<char>) -> Seq<char> {
    s.map_values(|c: char| ascii_lower_char(c))
}

/// `s` with every ASCII letter upper-cased.
pub open spec fn ascii_uppercase(s: Seq<char>) -> Seq<char> {
    s.map_values(|c: char| ascii_upper_char(c))
}

/// What `str::to_lowercase` makes of the characters `s` (Unicode lower case).
pub uninterp spec fn lowercase(s: Seq<char>) -> Seq<char>;

/// The lower case of `s`: letter by letter for ASCII text, else `lowercase`.
pub open spec fn lower_of(s: Seq<char>) -> Seq<char> {
    if is_ascii_chars(s) {
        ascii_lowercase(s)
    } else {
        lowercase(s)
    }
}

/// Calls `str::to_lowercase`. Trusted: the result's characters are
/// `lowercase` of the argument's, and for ASCII text each letter `A`-`Z`
/// becomes `a`-`z` with every other character kept (the Unicode lower-case
/// mapping on ASCII); nothing more is said of the mapping beyond ASCII.
#[verifier::external_body]
fn to_lowercase(s: &str) -> (r: String)
    ensures
        r@ == lowercase(s@),
        is_ascii_chars(s@) ==> r@ == ascii_lowercase(s@),
{
    s.to_lowercase()
}

/// Whether `c` is an ASCII letter or digit (`[a-zA-Z0-9]`).
pub open spec fn is_ascii_alnum(c: char) -> bool {
    ('a' <= c && c <= 'z') || ('A' <= c && c <= 'Z') || ('0' <= c && c <= '9')
}

/// `s` holds `n` ASCII letters or digits in a row from position `i`.
pub open spec fn alnum_run_at(s: Seq<char>, i: int, n: int) -> bool {
    0 <= i && i + n <= s.len() && forall|j: int| i <= j < i + n ==> is_ascii_alnum(#[trigger] s[j])
}

/// `s` holds `n` ASCII letters or digits in a row.
pub open spec fn has_alnum_run(s: Seq<char>, n: int) -> bool {
    exists|i: int| alnum_run_at(s, i, n)
}

/// The pattern of a passkey embedded in an announce URL.
pub const PASSKEY_PATTERN: &'static str = "([a-zA-Z0-9]{32})";

/// What `regex::Regex::new(pattern)` followed by `is_match(haystack)` gives:
/// `None` when the pattern does not compile, else whether it matches.
pub uninterp spec fn regex_outcome(pattern: Seq<char>, haystack: Seq<char>) -> Option<bool>;

/// Compiles `pattern` with `regex::Regex::new` and, when that succeeds, asks
/// `Regex::is_match` on `haystack`. Trusted: the outcome is `regex_outcome`
/// of the two texts; for `PASSKEY_PATTERN` (a group around the class
/// `[a-zA-Z0-9]` repeated exactly 32 times, searched anywhere in the text)
/// the pattern compiles and matches exactly when the text holds 32 ASCII
/// letters or digits in a row. Other patterns' semantics are not stated.
#[verifier::external_body]
fn regex_is_match(pattern: &str, haystack: &str) -> (r: Option<bool>)
    ensures
        r == regex_outcome(pattern@, haystack@),
        pattern@ == PASSKEY_PATTERN@ ==> r == Some(has_alnum_run(haystack@, 32)),
{
    match regex::Regex::new(pattern) {
        Ok(re) => Some(re.is_match(haystack)),
        Err(_) => None,
    }
}

/// Whether the lower-cased announce URL `lower` carries one of the marks of a
/// private tracker.
pub open spec fn has_pt_keyword(lower: Seq<char>) -> bool {
    ||| seq_contains(lower, "?passkey="@)
    ||| seq_contains(lower, "?authkey="@)
    ||| seq_contains(lower, "?secure="@)
    ||| seq_contains(lower, "?credential="@)
    ||| seq_contains(lower, "private"@)
}

/// Whether `tracker` belongs to a private site: after lower-casing, it holds
/// a private-tracker keyword or a run of 32 ASCII letters and digits (a passkey).
pub open spec fn tracker_is_pt(tracker: Seq<char>) -> bool {
    let lower = lower_of(tracker);
    has_pt_keyword(lower) || has_alnum_run(lower, 32)
}

/// The verdict on a lower-cased announce URL `lower`, given what matching
/// `PASSKEY_PATTERN` against it gave: private when it holds a keyword of a
/// private tracker or the pattern matched.
pub fn judge_tracker(lower: &str, passkey_match: Option<bool>) -> (r: bool)
    ensures
        r == (has_pt_keyword(lower@) || passkey_match == Some(true)),
{
    if str_contains(lower, "?passkey=") || str_contains(lower, "?authkey=") || str_contains(
        lower,
        "?secure=",
    ) || str_contains(lower, "?credential=") || str_contains(lower, "private") {
        return true;
    }
    match passkey_match {
        Some(m) => m,
        None => false,
    }
}

/// Whether `tracker` is the announce URL of a private tracker.
pub fn is_tracker_pt(tracker: &str) -> (r: bool)
    ensures
        r == tracker_is_pt(tracker@),
{
    let lower = to_lowercase(tracker);
    let outcome = regex_is_match(PASSKEY_PATTERN, lower.as_str());
    judge_tracker(lower.as_str(), outcome)
}

/// Trackers with the same lower case are judged alike.
pub proof fn lemma_pt_ignores_case(a: Seq<char>, b: Seq<char>)
    requires
        lower_of(a) == lower_of(b),
    ensures
        tracker_is_pt(a) == tracker_is_pt(b),
{
}

/// Upper-casing then lower-casing an ASCII letter is lower-casing it.
proof fn lemma_lower_upper_char(c: char)
    ensures
        ascii_lower_char(ascii_upper_char(c)) == ascii_lower_char(c),
        '\0' <= c <= '\u{7f}' ==> '\0' <= ascii_upper_char(c) <= '\u{7f}',
        '\0' <= c <= '\u{7f}' ==> '\0' <= ascii_lower_char(c) <= '\u{7f}',
{
}

/// Letter case does not matter for ASCII announce URLs: upper-casing or
/// lower-casing every letter keeps the verdict.
pub proof fn lemma_pt_ignores_ascii_case(s: Seq<char>)
    requires
        is_ascii_chars(s),
    ensures
        tracker_is_pt(ascii_uppercase(s)) == tracker_is_pt(s),
        tracker_is_pt(ascii_lowercase(s)) == tracker_is_pt(s),
{
    let up = ascii_uppercase(s);
    let low = ascii_lowercase(s);
    assert forall|i: int| 0 <= i < s.len() implies '\0' <= #[trigger] up[i] <= '\u{7f}'
        && ascii_lower_char(up[i]) == ascii_lower_char(s[i]) by {
        lemma_lower_upper_char(s[i]);
    }
    assert forall|i: int| 0 <= i < s.len() implies '\0' <= #[trigger] low[i] <= '\u{7f}'
        && ascii_lower_char(low[i]) == ascii_lower_char(s[i]) by {
        lemma_lower_upper_char(s[i]);
    }
    assert(is_ascii_chars(up));
    assert(is_ascii_chars(low));
    assert(ascii_lowercase(up) =~= ascii_lowercase(s));
    assert(ascii_lowercase(low) =~= ascii_lowercase(s));
}

/// A pattern found in the middle text is found in the whole.
proof fn lemma_contains_within(p: Seq<char>, s: Seq<char>, q: Seq<char>, k: Seq<char>)
    requires
        seq_contains(s, k),
    ensures
        seq_contains(p + s + q, k),
{
    let i = choose|i: int| occurs_at(s, k, i);
    let whole = p + s + q;
    assert(whole.subrange(p.len() + i, p.len() + i + k.len()) =~= s.subrange(i, i + k.len()));
    assert(occurs_at(whole, k, p.len() + i));
}

/// Adding ASCII text before or after a private tracker's ASCII announce URL
/// leaves it private.
pub proof fn lemma_pt_survives_surrounding_text(p: Seq<char>, s: Seq<char>, q: Seq<char>)
    requires
        is_ascii_chars(p),
        is_ascii_chars(s),
        is_ascii_chars(q),
        tracker_is_pt(s),
    ensures
        tracker_is_pt(p + s + q),
{
    let whole = p + s + q;
    assert(is_ascii_chars(whole)) by {
        assert forall|i: int| 0 <= i < whole.len() implies '\0' <= #[trigger] whole[i] <= '\u{7f}' by {
            if i < p.len() {
                assert(whole[i] == p[i]);
            } else if i < p.len() + s.len() {
                assert(whole[i] == s[i - p.len()]);
            } else {
                assert(whole[i] == q[i - p.len() - s.len()]);
            }
        }
    }
    let lp = ascii_lowercase(p);
    let ls = ascii_lowercase(s);
    let lq = ascii_lowercase(q);
    assert(ascii_lowercase(whole) =~= lp + ls + lq);
    if has_pt_keyword(ls) {
        if seq_contains(ls, "?passkey="@) {
            lemma_contains_within(lp, ls, lq, "?passkey="@);
        } else if seq_contains(ls, "?authkey="@) {
            lemma_contains_within(lp, ls, lq, "?authkey="@);
        } else if seq_contains(ls, "?secure="@) {
            lemma_contains_within(lp, ls, lq, "?secure="@);
        } else if seq_contains(ls, "?credential="@) {
            lemma_contains_within(lp, ls, lq, "?credential="@);
        } else {
            lemma_contains_within(lp, ls, lq, "private"@);
        }
    } else {
        let i = choose|i: int| alnum_run_at(ls, i, 32);
        let lw = lp + ls + lq;
        assert forall|j: int| lp.len() + i <= j < lp.len() + i + 32 implies is_ascii_alnum(
            #[trigger] lw[j],
        ) by {
            assert(lw[j] == ls[j - lp.len()]);
        }
        assert(alnum_run_at(lw, lp.len() + i, 32));
    }
}

} // verus!
