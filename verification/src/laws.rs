//! What holds of every chain, stated over the models and proved.

use vstd::prelude::*;
use crate::chain::{chain_result, lemma_chain_extend, lemma_chain_split, stage_step};
use crate::engine::capture;
use crate::input::{kept, selected, survivors, SplitMode};
use crate::stage::{narrowing, patterns_of, Stage, CAPTURE_GROUP};

verus! {

/// Short circuit. Where the stage at place `i` is reached with `candidate`
/// and its pattern matches nowhere in it, the chain has no result and keeps
/// nothing of the text, whatever stages follow: `later` may be any list.
pub proof fn law_short_circuit(
    patterns: Seq<Seq<char>>,
    text: Seq<char>,
    i: int,
    candidate: Seq<char>,
    later: Seq<Seq<char>>,
)
    requires
        0 <= i < patterns.len(),
        chain_result(patterns.take(i), text) == Some(candidate),
        capture(patterns[i], candidate, CAPTURE_GROUP@) is None,
    ensures
        chain_result(patterns, text) is None,
        kept(patterns, text) == Seq::<Seq<char>>::empty(),
        chain_result(patterns.take(i + 1) + later, text) is None,
{
    lemma_chain_extend(patterns, text, i);
    lemma_chain_split(patterns, text, i + 1);
    let other = patterns.take(i + 1) + later;
    assert(other.take(i + 1) =~= patterns.take(i + 1));
    lemma_chain_split(other, text, i + 1);
}

/// A stage that is never reached changes nothing either: once the stages
/// before place `i` have no result, the chain has none.
pub proof fn law_failure_is_final(patterns: Seq<Seq<char>>, text: Seq<char>, i: int)
    requires
        0 <= i <= patterns.len(),
        chain_result(patterns.take(i), text) is None,
    ensures
        chain_result(patterns, text) is None,
{
    lemma_chain_split(patterns, text, i);
}

/// Pure filter. A stage whose pattern declares no group named `out`, and
/// which matches, hands on the very candidate it was given: the stages after
/// it see that candidate.
pub proof fn law_pure_filter(
    patterns: Seq<Seq<char>>,
    text: Seq<char>,
    i: int,
    candidate: Seq<char>,
)
    requires
        0 <= i < patterns.len(),
        !narrowing(patterns[i]),
        chain_result(patterns.take(i), text) == Some(candidate),
        capture(patterns[i], candidate, CAPTURE_GROUP@) is Some,
    ensures
        stage_step(patterns[i], candidate) == Some(candidate),
        chain_result(patterns.take(i + 1), text) == Some(candidate),
        chain_result(patterns, text) == chain_result(patterns.skip(i + 1), candidate),
{
    lemma_chain_extend(patterns, text, i);
    lemma_chain_split(patterns, text, i + 1);
}

/// Narrowing. A stage whose pattern declares a group named `out`, and in
/// whose match that group captured `span`, hands on exactly `span`: the
/// stages after it see nothing else.
pub proof fn law_narrowing(
    patterns: Seq<Seq<char>>,
    text: Seq<char>,
    i: int,
    candidate: Seq<char>,
    span: Seq<char>,
)
    requires
        0 <= i < patterns.len(),
        narrowing(patterns[i]),
        chain_result(patterns.take(i), text) == Some(candidate),
        capture(patterns[i], candidate, CAPTURE_GROUP@) == Some(Some(span)),
    ensures
        stage_step(patterns[i], candidate) == Some(span),
        chain_result(patterns.take(i + 1), text) == Some(span),
        chain_result(patterns, text) == chain_result(patterns.skip(i + 1), span),
{
    lemma_chain_extend(patterns, text, i);
    lemma_chain_split(patterns, text, i + 1);
}

/// A narrowing stage whose group took no part in the match ends the chain.
pub proof fn law_unbound_group_fails(
    patterns: Seq<Seq<char>>,
    text: Seq<char>,
    i: int,
    candidate: Seq<char>,
)
    requires
        0 <= i < patterns.len(),
        narrowing(patterns[i]),
        chain_result(patterns.take(i), text) == Some(candidate),
        capture(patterns[i], candidate, CAPTURE_GROUP@) == Some(None::<Seq<char>>),
    ensures
        chain_result(patterns, text) is None,
{
    lemma_chain_extend(patterns, text, i);
    lemma_chain_split(patterns, text, i + 1);
}

/// No hidden state. The result of a chain depends on the patterns of its
/// stages and on the text, and on nothing else: two runs with the same
/// patterns on the same text agree, in every mode.
pub proof fn law_runs_agree(
    first: Seq<Stage>,
    second: Seq<Stage>,
    text: Seq<char>,
    again: Seq<char>,
    mode: SplitMode,
)
    requires
        patterns_of(first) == patterns_of(second),
        text == again,
    ensures
        chain_result(patterns_of(first), text) == chain_result(patterns_of(second), again),
        selected(patterns_of(first), text, mode) == selected(patterns_of(second), again, mode),
{
}

/// The empty chain. With no patterns every text is its own result, and a run
/// produces the text itself as its one record, unsplit, in either mode.
pub proof fn law_empty_chain(text: Seq<char>, mode: SplitMode)
    ensures
        chain_result(Seq::<Seq<char>>::empty(), text) == Some(text),
        selected(Seq::<Seq<char>>::empty(), text, mode) == seq![text],
{
}

/// Lines are independent and stay in order: what a run keeps of a list of
/// lines is what it keeps of the first lines followed by what it keeps of
/// the rest.
pub proof fn law_lines_independent(
    patterns: Seq<Seq<char>>,
    front: Seq<Seq<char>>,
    back: Seq<Seq<char>>,
)
    ensures
        survivors(patterns, front + back) == survivors(patterns, front) + survivors(patterns, back),
    decreases back.len(),
{
    if back.len() == 0 {
        assert(front + back =~= front);
        assert(survivors(patterns, front) + survivors(patterns, back) =~= survivors(
            patterns,
            front,
        ));
    } else {
        let whole = front + back;
        assert(whole.drop_last() =~= front + back.drop_last());
        assert(whole.last() == back.last());
        law_lines_independent(patterns, front, back.drop_last());
        assert((survivors(patterns, front) + survivors(patterns, back.drop_last())) + kept(
            patterns,
            back.last(),
        ) =~= survivors(patterns, front) + (survivors(patterns, back.drop_last()) + kept(
            patterns,
            back.last(),
        )));
    }
}

} // verus!
