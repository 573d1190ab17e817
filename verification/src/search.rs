//! Matching a query against metric names.
//!
//! The matcher is a filter: a name matches when the characters of the query
//! occur in it in order, with gaps allowed. A query with an upper-case ASCII
//! letter is compared with case, any other without. Scores are not exposed.

use fuzzy_matcher::skim::SkimMatcherV2;
use fuzzy_matcher::FuzzyMatcher;
use vstd::prelude::*;
use vstd::std_specs::iter::IteratorSpec;
use vstd::string::*;

verus! {

/// The longest query, in characters, that is handed to the matcher. The
/// matcher adds up its scores in 32 bits, at most 32 for each character of
/// the query; below this length the sum stays far from the limit.
pub const MAX_QUERY_LEN: usize = 0x100_0000;

/// Whether `c` is one of the letters `A` to `Z`.
pub open spec fn is_ascii_upper(c: char) -> bool {
    'A' <= c <= 'Z'
}

/// `c` with the letters `A` to `Z` replaced by `a` to `z`.
pub open spec fn ascii_lower(c: char) -> char {
    if is_ascii_upper(c) {
        ((c as u8 + 32) as u8) as char
    } else {
        c
    }
}

/// Whether `text` holds one of the letters `A` to `Z`.
pub open spec fn has_ascii_upper(text: Seq<char>) -> bool {
    exists|i: int| 0 <= i < text.len() && is_ascii_upper(#[trigger] text[i])
}

/// Whether a character of a name stands for a character of the query.
/// Without case sensitivity the ASCII letters match in either case.
pub open spec fn chars_match(c: char, p: char, case_sensitive: bool) -> bool {
    if case_sensitive {
        c == p
    } else {
        ascii_lower(c) == ascii_lower(p)
    }
}

/// Whether `positions` shows where `pattern` occurs in `choice`: it names
/// one place in `choice` for each character of `pattern`, the places rise,
/// and at each place stands a character that matches.
pub open spec fn shows_subsequence(
    positions: Seq<int>,
    pattern: Seq<char>,
    choice: Seq<char>,
    case_sensitive: bool,
) -> bool {
    &&& positions.len() == pattern.len()
    &&& forall|i: int|
        0 <= i < positions.len() ==> 0 <= #[trigger] positions[i] < choice.len() && chars_match(
            choice[positions[i]],
            pattern[i],
            case_sensitive,
        )
    &&& forall|i: int, j: int|
        0 <= i < j < positions.len() ==> #[trigger] positions[i] < #[trigger] positions[j]
}

/// Whether the characters of `pattern` occur in `choice` in their order,
/// not necessarily side by side.
pub open spec fn is_subsequence(pattern: Seq<char>, choice: Seq<char>, case_sensitive: bool) -> bool {
    exists|positions: Seq<int>| #[trigger]
        shows_subsequence(positions, pattern, choice, case_sensitive)
}

/// Whether a metric called `name` is among the results for `query`. A query
/// with an upper-case ASCII letter is matched with case, any other without.
pub open spec fn matches_query(name: Seq<char>, query: Seq<char>) -> bool {
    is_subsequence(query, name, has_ascii_upper(query))
}

/// Whether `part` occurs in `whole` as one contiguous run of characters.
pub open spec fn is_substring(part: Seq<char>, whole: Seq<char>) -> bool {
    exists|start: int|
        0 <= start && start + part.len() <= whole.len() && #[trigger] whole.subrange(
            start,
            start + part.len(),
        ) == part
}

/// Whether a scan of `choice` from its start comes through all of
/// `pattern`, each character of the pattern being taken at the first place
/// where a matching character stands behind the one taken before.
pub open spec fn found_in_order(pattern: Seq<char>, choice: Seq<char>, case_sensitive: bool) -> bool
    decreases choice.len(),
{
    if pattern.len() == 0 {
        true
    } else if choice.len() == 0 {
        false
    } else if chars_match(choice[0], pattern[0], case_sensitive) {
        found_in_order(pattern.drop_first(), choice.drop_first(), case_sensitive)
    } else {
        found_in_order(pattern, choice.drop_first(), case_sensitive)
    }
}

/// Where a scan comes through a pattern, the places at which it took the
/// characters show the pattern in the text.
pub proof fn lemma_scan_gives_positions(
    pattern: Seq<char>,
    choice: Seq<char>,
    case_sensitive: bool,
) -> (positions: Seq<int>)
    requires
        found_in_order(pattern, choice, case_sensitive),
    ensures
        shows_subsequence(positions, pattern, choice, case_sensitive),
    decreases choice.len(),
{
    if pattern.len() == 0 {
        Seq::empty()
    } else if chars_match(choice[0], pattern[0], case_sensitive) {
        let rest = lemma_scan_gives_positions(
            pattern.drop_first(),
            choice.drop_first(),
            case_sensitive,
        );
        let positions = Seq::new(pattern.len(), |i: int| if i == 0 { 0 } else { rest[i - 1] + 1 });
        assert forall|i: int| 0 <= i < positions.len() implies 0 <= #[trigger] positions[i]
            < choice.len() && chars_match(choice[positions[i]], pattern[i], case_sensitive) by {
            if i > 0 {
                assert(0 <= rest[i - 1] < choice.drop_first().len());
                assert(choice.drop_first()[rest[i - 1]] == choice[positions[i]]);
                assert(pattern.drop_first()[i - 1] == pattern[i]);
            }
        }
        assert forall|i: int, j: int| 0 <= i < j < positions.len() implies #[trigger] positions[i]
            < #[trigger] positions[j] by {
            if i > 0 {
                assert(rest[i - 1] < rest[j - 1]);
            } else {
                assert(0 <= rest[j - 1]);
            }
        }
        positions
    } else {
        let rest = lemma_scan_gives_positions(pattern, choice.drop_first(), case_sensitive);
        let positions = Seq::new(pattern.len(), |i: int| rest[i] + 1);
        assert forall|i: int| 0 <= i < positions.len() implies 0 <= #[trigger] positions[i]
            < choice.len() && chars_match(choice[positions[i]], pattern[i], case_sensitive) by {
            assert(0 <= rest[i] < choice.drop_first().len());
            assert(choice.drop_first()[rest[i]] == choice[positions[i]]);
        }
        assert forall|i: int, j: int| 0 <= i < j < positions.len() implies #[trigger] positions[i]
            < #[trigger] positions[j] by {
            assert(rest[i] < rest[j]);
        }
        positions
    }
}

/// Where places show a pattern in a text, a scan comes through the pattern:
/// taking each character at the first place where it can stand misses
/// nothing.
pub proof fn lemma_positions_give_scan(
    positions: Seq<int>,
    pattern: Seq<char>,
    choice: Seq<char>,
    case_sensitive: bool,
)
    requires
        shows_subsequence(positions, pattern, choice, case_sensitive),
    ensures
        found_in_order(pattern, choice, case_sensitive),
    decreases choice.len(),
{
    if pattern.len() > 0 {
        assert(0 <= positions[0] < choice.len());
        let tail = choice.drop_first();
        if chars_match(choice[0], pattern[0], case_sensitive) {
            let rest = Seq::new((pattern.len() - 1) as nat, |i: int| positions[i + 1] - 1);
            assert forall|i: int| 0 <= i < rest.len() implies 0 <= #[trigger] rest[i] < tail.len()
                && chars_match(tail[rest[i]], pattern.drop_first()[i], case_sensitive) by {
                assert(positions[0] < positions[i + 1]);
                assert(tail[rest[i]] == choice[positions[i + 1]]);
                assert(pattern.drop_first()[i] == pattern[i + 1]);
            }
            assert forall|i: int, j: int| 0 <= i < j < rest.len() implies #[trigger] rest[i]
                < #[trigger] rest[j] by {
                assert(positions[i + 1] < positions[j + 1]);
            }
            lemma_positions_give_scan(rest, pattern.drop_first(), tail, case_sensitive);
        } else {
            let rest = Seq::new(pattern.len(), |i: int| positions[i] - 1);
            assert forall|i: int| 0 <= i < rest.len() implies 0 <= #[trigger] rest[i] < tail.len()
                && chars_match(tail[rest[i]], pattern[i], case_sensitive) by {
                if i > 0 {
                    assert(positions[0] < positions[i]);
                }
                assert(positions[i] != 0);
                assert(tail[rest[i]] == choice[positions[i]]);
            }
            assert forall|i: int, j: int| 0 <= i < j < rest.len() implies #[trigger] rest[i]
                < #[trigger] rest[j] by {
                assert(positions[i] < positions[j]);
            }
            lemma_positions_give_scan(rest, pattern, tail, case_sensitive);
        }
    }
}

/// A scan comes through a pattern exactly when the pattern occurs in the
/// text.
pub proof fn lemma_scan_decides_subsequence(
    pattern: Seq<char>,
    choice: Seq<char>,
    case_sensitive: bool,
)
    ensures
        found_in_order(pattern, choice, case_sensitive) == is_subsequence(
            pattern,
            choice,
            case_sensitive,
        ),
{
    if found_in_order(pattern, choice, case_sensitive) {
        let positions = lemma_scan_gives_positions(pattern, choice, case_sensitive);
        assert(shows_subsequence(positions, pattern, choice, case_sensitive));
    }
    if is_subsequence(pattern, choice, case_sensitive) {
        let positions = choose|positions: Seq<int>| #[trigger]
            shows_subsequence(positions, pattern, choice, case_sensitive);
        lemma_positions_give_scan(positions, pattern, choice, case_sensitive);
    }
}

/// The empty query matches every name.
pub proof fn lemma_empty_query_matches(name: Seq<char>)
    ensures
        matches_query(name, Seq::empty()),
{
    assert(shows_subsequence(Seq::empty(), Seq::empty(), name, false));
    assert(!has_ascii_upper(Seq::empty()));
}

/// A query that is a contiguous part of a name matches that name.
pub proof fn lemma_substring_matches(name: Seq<char>, query: Seq<char>)
    requires
        is_substring(query, name),
    ensures
        matches_query(name, query),
{
    let start = choose|start: int|
        0 <= start && start + query.len() <= name.len() && #[trigger] name.subrange(
            start,
            start + query.len(),
        ) == query;
    let case_sensitive = has_ascii_upper(query);
    let positions = Seq::new(query.len(), |i: int| start + i);
    assert forall|i: int| 0 <= i < positions.len() implies 0 <= #[trigger] positions[i]
        < name.len() && chars_match(name[positions[i]], query[i], case_sensitive) by {
        assert(name.subrange(start, start + query.len())[i] == name[start + i]);
    }
    assert(shows_subsequence(positions, query, name, case_sensitive));
}

/// Calls `fuzzy_match` of `fuzzy_matcher` on a `SkimMatcherV2` with its
/// default settings, `choice` first and `pattern` second.
///
/// Trusted: the call gives a score exactly when a scan of the choice comes
/// through the pattern, as `found_in_order` says, the characters being
/// compared with case if the pattern holds an upper-case ASCII letter and
/// without otherwise. Nothing is claimed of the score itself. The call does
/// not panic on a pattern within the limit.
#[verifier::external_body]
fn skim_fuzzy_match(choice: &str, pattern: &str) -> (score: Option<i64>)
    requires
        pattern@.len() <= MAX_QUERY_LEN,
    ensures
        score is Some <==> found_in_order(pattern@, choice@, has_ascii_upper(pattern@)),
{
    SkimMatcherV2::default().fuzzy_match(choice, pattern)
}

/// Gives `c` with the letters `A` to `Z` replaced by `a` to `z`.
fn lower_ascii(c: char) -> (lower: char)
    ensures
        lower == ascii_lower(c),
{
    if 'A' <= c && c <= 'Z' {
        ((c as u8) + 32) as char
    } else {
        c
    }
}

/// Tells whether `text` holds one of the letters `A` to `Z`.
fn holds_ascii_upper(text: &str) -> (found: bool)
    ensures
        found == has_ascii_upper(text@),
{
    broadcast use vstd::string::group_string_axioms;

    let mut rest = text.chars();
    let ghost mut seen: int = 0;
    loop
        invariant
            0 <= seen <= text@.len(),
            rest.remaining() == text@.skip(seen),
            forall|i: int| 0 <= i < seen ==> !is_ascii_upper(#[trigger] text@[i]),
        decreases text@.len() - seen,
    {
        match rest.next() {
            Some(c) => {
                assert(c == text@[seen]);
                if 'A' <= c && c <= 'Z' {
                    return true;
                }
                proof {
                    assert(text@.skip(seen).drop_first() =~= text@.skip(seen + 1));
                    seen = seen + 1;
                }
            },
            None => {
                assert(seen == text@.len());
                return false;
            },
        }
    }
}

/// Decides whether the metric called `name` matches `query` by looking for
/// the characters of `query` in `name`, one after the other.
fn scan_matches(name: &str, query: &str) -> (found: bool)
    ensures
        found == matches_query(name@, query@),
{
    broadcast use vstd::string::group_string_axioms;

    let case_sensitive = holds_ascii_upper(query);
    let mut wanted = query.chars();
    let mut rest = name.chars();
    let mut next = wanted.next();
    let ghost mut pending: Seq<char> = query@;
    let ghost mut left: Seq<char> = name@;
    proof {
        lemma_scan_decides_subsequence(query@, name@, case_sensitive);
    }
    loop
        invariant
            case_sensitive == has_ascii_upper(query@),
            left == rest.remaining(),
            pending == match next {
                Some(p) => seq![p] + wanted.remaining(),
                None => Seq::empty(),
            },
            matches_query(name@, query@) == found_in_order(pending, left, case_sensitive),
        decreases left.len(),
    {
        match next {
            None => {
                return true;
            },
            Some(p) => {
                assert(pending[0] == p);
                assert(pending.drop_first() =~= wanted.remaining());
                match rest.next() {
                    None => {
                        return false;
                    },
                    Some(c) => {
                        let same = if case_sensitive {
                            c == p
                        } else {
                            lower_ascii(c) == lower_ascii(p)
                        };
                        assert(same == chars_match(left[0], pending[0], case_sensitive));
                        if same {
                            next = wanted.next();
                            proof {
                                pending = pending.drop_first();
                                assert(pending =~= match next {
                                    Some(p) => seq![p] + wanted.remaining(),
                                    None => Seq::empty(),
                                });
                            }
                        }
                        proof {
                            left = left.drop_first();
                        }
                    },
                }
            },
        }
    }
}

/// Decides whether the metric called `name` matches `query`.
///
/// The matcher decides for every query that it can score. A longer query
/// is looked for in the name character by character, which gives the same
/// answer.
pub fn name_matches(name: &str, query: &str) -> (found: bool)
    ensures
        found == matches_query(name@, query@),
{
    if query.unicode_len() <= MAX_QUERY_LEN {
        proof {
            lemma_scan_decides_subsequence(query@, name@, has_ascii_upper(query@));
        }
        skim_fuzzy_match(name, query).is_some()
    } else {
        scan_matches(name, query)
    }
}

} // verus!
