//! Sequential narrowing: an ordered list of stages applied to one text.

use vstd::prelude::*;
use crate::engine::{capture, found_view, is_piece_of, search};
use crate::stage::{narrowing, patterns_of, Stage, CAPTURE_GROUP};

verus! {

/// The candidate that a stage hands on, given what its search found:
/// nothing where the pattern did not match; for a narrowing stage the text
/// its group captured, or nothing where the group took no part; for any
/// other stage the candidate it was given.
pub open spec fn handed_on(narrows: bool, candidate: Seq<char>, found: Option<Option<Seq<char>>>) -> Option<
    Seq<char>,
> {
    match found {
        None => None,
        Some(captured) => if narrows {
            captured
        } else {
            Some(candidate)
        },
    }
}

/// What the stage with this pattern hands on when it is given `candidate`.
pub open spec fn stage_step(pattern: Seq<char>, candidate: Seq<char>) -> Option<Seq<char>> {
    handed_on(narrowing(pattern), candidate, capture(pattern, candidate, CAPTURE_GROUP@))
}

/// The result of the whole chain on `text`: the stages are taken in order,
/// each is given what the one before handed on, and the first that hands on
/// nothing ends the chain with no result.
pub open spec fn chain_result(patterns: Seq<Seq<char>>, text: Seq<char>) -> Option<Seq<char>>
    decreases patterns.len(),
{
    if patterns.len() == 0 {
        Some(text)
    } else {
        match stage_step(patterns[0], text) {
            None => None,
            Some(next) => chain_result(patterns.drop_first(), next),
        }
    }
}

/// A text as its characters, where there is one.
pub open spec fn text_view(text: Option<&str>) -> Option<Seq<char>> {
    match text {
        Some(s) => Some(s@),
        None => None,
    }
}

/// The chain on the first `n` patterns followed by the chain on the rest.
pub proof fn lemma_chain_split(patterns: Seq<Seq<char>>, text: Seq<char>, n: int)
    requires
        0 <= n <= patterns.len(),
    ensures
        chain_result(patterns, text) == (match chain_result(patterns.take(n), text) {
            None => None,
            Some(mid) => chain_result(patterns.skip(n), mid),
        }),
    decreases n,
{
    if n == 0 {
        assert(patterns.take(0).len() == 0);
        assert(patterns.skip(0) =~= patterns);
    } else {
        let head = patterns.take(n);
        assert(head[0] == patterns[0]);
        assert(head.drop_first() =~= patterns.drop_first().take(n - 1));
        assert(patterns.drop_first().skip(n - 1) =~= patterns.skip(n));
        match stage_step(patterns[0], text) {
            None => {},
            Some(next) => {
                lemma_chain_split(patterns.drop_first(), next, n - 1);
            },
        }
    }
}

/// One more stage at the end of a chain: it is given what the chain before
/// it hands on.
pub proof fn lemma_chain_extend(patterns: Seq<Seq<char>>, text: Seq<char>, n: int)
    requires
        0 <= n < patterns.len(),
    ensures
        chain_result(patterns.take(n + 1), text) == (match chain_result(patterns.take(n), text) {
            None => None,
            Some(mid) => stage_step(patterns[n], mid),
        }),
{
    let longer = patterns.take(n + 1);
    lemma_chain_split(longer, text, n);
    assert(longer.take(n) =~= patterns.take(n));
    let last = longer.skip(n);
    assert(last.len() == 1);
    assert(last[0] == patterns[n]);
    assert(last.drop_first().len() == 0);
    match chain_result(patterns.take(n), text) {
        None => {},
        Some(mid) => {
            assert(chain_result(last, mid) == match stage_step(last[0], mid) {
                None => None,
                Some(next) => chain_result(last.drop_first(), next),
            });
        },
    }
}

/// A piece of a piece is a piece.
pub proof fn lemma_piece_of_piece(inner: Seq<char>, middle: Seq<char>, outer: Seq<char>)
    requires
        is_piece_of(inner, middle),
        is_piece_of(middle, outer),
    ensures
        is_piece_of(inner, outer),
{
    let (a, b) = choose|a: int, b: int|
        0 <= a <= b <= middle.len() && inner == #[trigger] middle.subrange(a, b);
    let (c, d) = choose|c: int, d: int|
        0 <= c <= d <= outer.len() && middle == #[trigger] outer.subrange(c, d);
    assert(inner =~= outer.subrange(c + a, c + b));
}

/// Decides what one stage hands on, from its flag, the candidate it was given
/// and what its search found.
pub fn advance<'a>(narrows: bool, candidate: &'a str, found: Option<Option<&'a str>>) -> (r: Option<
    &'a str,
>)
    ensures
        text_view(r) == handed_on(narrows, candidate@, found_view(found)),
        found is None ==> r is None,
        found matches Some(captured) ==> narrows ==> r == captured,
        found is Some ==> !narrows ==> r == Some(candidate),
{
    match found {
        None => None,
        Some(captured) => if narrows {
            captured
        } else {
            Some(candidate)
        },
    }
}

/// Runs the chain on `text`. The result is the text that the last stage hands
/// on, or `None` as soon as one stage hands on nothing; with no stages it is
/// `text` itself. A result is always a contiguous part of `text`.
pub fn match_all_re<'a>(stages: &Vec<Stage>, text: &'a str) -> (r: Option<&'a str>)
    ensures
        text_view(r) == chain_result(patterns_of(stages@), text@),
        r matches Some(s) ==> is_piece_of(s@, text@),
        stages.len() == 0 ==> r == Some(text),
{
    let ghost patterns = patterns_of(stages@);
    let mut haystack = text;
    let mut i: usize = 0;
    proof {
        assert(patterns.take(0).len() == 0);
        assert(text@ =~= text@.subrange(0, text@.len() as int));
    }
    while i < stages.len()
        invariant
            i <= stages.len(),
            patterns == patterns_of(stages@),
            chain_result(patterns.take(i as int), text@) == Some(haystack@),
            is_piece_of(haystack@, text@),
            i == 0 ==> haystack == text,
        decreases stages.len() - i,
    {
        let stage = &stages[i];
        let found = search(stage.regex(), haystack, CAPTURE_GROUP);
        let next = advance(stage.narrows(), haystack, found);
        proof {
            lemma_chain_extend(patterns, text@, i as int);
            assert(patterns[i as int] == stage@);
        }
        match next {
            None => {
                proof {
                    lemma_chain_split(patterns, text@, i as int + 1);
                }
                return None;
            },
            Some(narrowed) => {
                proof {
                    if narrowed@ != haystack@ {
                        lemma_piece_of_piece(narrowed@, haystack@, text@);
                    }
                }
                haystack = narrowed;
            },
        }
        i += 1;
    }
    proof {
        assert(patterns.take(i as int) =~= patterns);
    }
    Some(haystack)
}

} // verus!
