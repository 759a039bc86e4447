//! Where the text comes from, how it is split, and which records are kept.

use vstd::prelude::*;
use url::Url;
use crate::chain::{chain_result, match_all_re};
use crate::stage::{patterns_of, Stage};

verus! {

/// Whether `Url::parse` accepts the text as an absolute URL.
pub uninterp spec fn parses_as_url(identifier: Seq<char>) -> bool;

/// Calls `Url::parse` and reports whether it succeeded.
#[verifier::external_body]
pub(crate) fn url_parses(identifier: &str) -> (b: bool)
    ensures
        b == parses_as_url(identifier@),
{
    Url::parse(identifier).is_ok()
}

/// Calls `str::split_once` with a character as the delimiter. Where the
/// character occurs, the text is cut at its first occurrence: the part before
/// it, which does not hold the character, and the part after it. Where it
/// does not occur there is nothing to cut.
#[verifier::external_body]
pub(crate) fn cut_at_first<'a>(text: &'a str, delimiter: char) -> (r: Option<(&'a str, &'a str)>)
    ensures
        r is None ==> !text@.contains(delimiter),
        r matches Some((head, tail)) ==> !head@.contains(delimiter) && text@ == head@
            + seq![delimiter] + tail@,
{
    text.split_once(delimiter)
}

/// Where an identifier points.
#[derive(Clone, Copy, Debug, PartialEq, Eq, Structural)]
pub enum Origin {
    /// A resource to be fetched over the network.
    Remote,
    /// A path in the file system.
    Local,
}

/// How the text is handed to the chain.
#[derive(Clone, Copy, Debug, PartialEq, Eq, Structural)]
pub enum SplitMode {
    /// The chain runs once, on the whole text.
    WholeDocument,
    /// The chain runs on each line by itself.
    LineByLine,
}

/// The origin that follows from whether the identifier parsed as a URL.
pub open spec fn origin_of(parsed: bool) -> Origin {
    if parsed {
        Origin::Remote
    } else {
        Origin::Local
    }
}

/// The split mode: a remote text is taken line by line and a local one as a
/// whole, unless `flip` is set, which exchanges the two.
pub open spec fn mode_of(origin: Origin, flip: bool) -> SplitMode {
    match origin {
        Origin::Remote => if flip {
            SplitMode::WholeDocument
        } else {
            SplitMode::LineByLine
        },
        Origin::Local => if flip {
            SplitMode::LineByLine
        } else {
            SplitMode::WholeDocument
        },
    }
}

/// The origin, given whether the identifier parsed as a URL.
pub fn origin_for(parsed: bool) -> (o: Origin)
    ensures
        o == origin_of(parsed),
{
    if parsed {
        Origin::Remote
    } else {
        Origin::Local
    }
}

/// Decides where an identifier points: remote if it parses as an absolute
/// URL, local otherwise.
pub fn classify(identifier: &str) -> (o: Origin)
    ensures
        o == origin_of(parses_as_url(identifier@)),
{
    origin_for(url_parses(identifier))
}

/// Decides how a text of this origin is split.
pub fn split_mode(origin: Origin, flip: bool) -> (m: SplitMode)
    ensures
        m == mode_of(origin, flip),
{
    match origin {
        Origin::Remote => if flip {
            SplitMode::WholeDocument
        } else {
            SplitMode::LineByLine
        },
        Origin::Local => if flip {
            SplitMode::LineByLine
        } else {
            SplitMode::WholeDocument
        },
    }
}

/// The place of the first `sep` in `s`, or the length of `s` if there is none.
pub open spec fn first_break(s: Seq<char>, sep: char) -> int
    decreases s.len(),
{
    if s.len() == 0 {
        0
    } else if s[0] == sep {
        0
    } else {
        1 + first_break(s.drop_first(), sep)
    }
}

/// The pieces of `s` between the occurrences of `sep`, in order. There is
/// always at least one piece; pieces may be empty.
pub open spec fn split_on(s: Seq<char>, sep: char) -> Seq<Seq<char>>
    decreases s.len(),
{
    let at = first_break(s, sep);
    if 0 <= at < s.len() {
        seq![s.take(at)] + split_on(s.skip(at + 1), sep)
    } else {
        seq![s]
    }
}

/// The texts of a list of string slices.
pub open spec fn slices_view(slices: Seq<&str>) -> Seq<Seq<char>> {
    slices.map_values(|s: &str| s@)
}

/// `first_break` finds the separator that follows a head without one, and
/// runs to the end of a text that holds none.
pub proof fn lemma_first_break(head: Seq<char>, sep: char, tail: Seq<char>)
    requires
        !head.contains(sep),
    ensures
        first_break(head, sep) == head.len(),
        first_break(head + seq![sep] + tail, sep) == head.len(),
    decreases head.len(),
{
    let whole = head + seq![sep] + tail;
    if head.len() == 0 {
        assert(whole[0] == sep);
    } else {
        assert(head.contains(head[0]));
        assert(whole[0] == head[0]);
        let rest = head.drop_first();
        assert forall|c: char| rest.contains(c) implies head.contains(c) by {
            let k = choose|k: int| 0 <= k < rest.len() && rest[k] == c;
            assert(head[k + 1] == c);
        }
        assert(whole.drop_first() =~= rest + seq![sep] + tail);
        lemma_first_break(rest, sep, tail);
    }
}

/// `first_break` lies within the text, nothing before it is the separator,
/// and where it lies before the end it is at a separator.
pub proof fn lemma_first_break_is_first(s: Seq<char>, sep: char)
    ensures
        0 <= first_break(s, sep) <= s.len(),
        !s.take(first_break(s, sep)).contains(sep),
        first_break(s, sep) < s.len() ==> s[first_break(s, sep)] == sep,
    decreases s.len(),
{
    let at = first_break(s, sep);
    if s.len() != 0 && s[0] != sep {
        let rest = s.drop_first();
        lemma_first_break_is_first(rest, sep);
        let head = s.take(at);
        if head.contains(sep) {
            let k = choose|k: int| 0 <= k < head.len() && head[k] == sep;
            assert(rest.take(at - 1)[k - 1] == sep);
        }
    }
}

/// The pieces put together again, with `sep` between neighbours.
pub open spec fn join_with(pieces: Seq<Seq<char>>, sep: char) -> Seq<char>
    decreases pieces.len(),
{
    if pieces.len() == 0 {
        Seq::empty()
    } else if pieces.len() == 1 {
        pieces[0]
    } else {
        pieces[0] + seq![sep] + join_with(pieces.drop_first(), sep)
    }
}

/// Splitting loses nothing: there is at least one piece, no piece holds the
/// separator, and the pieces joined by the separator are the text.
pub proof fn lemma_split_rejoins(s: Seq<char>, sep: char)
    ensures
        split_on(s, sep).len() >= 1,
        forall|k: int| 0 <= k < split_on(s, sep).len() ==> !(#[trigger] split_on(s, sep)[k]).contains(sep),
        join_with(split_on(s, sep), sep) == s,
    decreases s.len(),
{
    let at = first_break(s, sep);
    lemma_first_break_is_first(s, sep);
    if at < s.len() {
        let tail = s.skip(at + 1);
        lemma_split_rejoins(tail, sep);
        let pieces = split_on(s, sep);
        let later = split_on(tail, sep);
        assert(pieces == seq![s.take(at)] + later);
        assert(pieces.drop_first() =~= later);
        assert forall|k: int| 0 <= k < pieces.len() implies !(#[trigger] pieces[k]).contains(sep) by {
            if k > 0 {
                assert(pieces[k] == later[k - 1]);
            }
        }
        assert(s.take(at) + seq![sep] + tail =~= s);
    } else {
        assert(s.take(at) =~= s);
    }
}

/// Cuts a text at every line feed: the lines are the pieces of the text
/// between its line feeds, in order, empty ones included.
pub fn split_lines<'a>(text: &'a str) -> (lines: Vec<&'a str>)
    ensures
        slices_view(lines@) == split_on(text@, '\n'),
{
    let mut lines: Vec<&'a str> = Vec::new();
    let mut rest = text;
    loop
        invariant
            split_on(text@, '\n') == slices_view(lines@) + split_on(rest@, '\n'),
        decreases rest@.len(),
    {
        let ghost before = slices_view(lines@);
        match cut_at_first(rest, '\n') {
            None => {
                proof {
                    lemma_first_break(rest@, '\n', Seq::empty());
                }
                lines.push(rest);
                assert(slices_view(lines@) =~= before + seq![rest@]);
                return lines;
            },
            Some((head, tail)) => {
                proof {
                    lemma_first_break(head@, '\n', tail@);
                    assert(rest@.take(head@.len() as int) =~= head@);
                    assert(rest@.skip(head@.len() as int + 1) =~= tail@);
                }
                lines.push(head);
                assert(slices_view(lines@) =~= before + seq![head@]);
                assert(before + (seq![head@] + split_on(tail@, '\n')) =~= (before + seq![head@])
                    + split_on(tail@, '\n'));
                rest = tail;
            },
        }
    }
}

/// What the chain keeps of one text: the result, or nothing.
pub open spec fn kept(patterns: Seq<Seq<char>>, text: Seq<char>) -> Seq<Seq<char>> {
    match chain_result(patterns, text) {
        Some(found) => seq![found],
        None => Seq::empty(),
    }
}

/// What the chain keeps of a list of texts, each taken by itself, in their
/// order.
pub open spec fn survivors(patterns: Seq<Seq<char>>, texts: Seq<Seq<char>>) -> Seq<Seq<char>>
    decreases texts.len(),
{
    if texts.len() == 0 {
        Seq::empty()
    } else {
        survivors(patterns, texts.drop_last()) + kept(patterns, texts.last())
    }
}

/// The records that a run produces, in the order in which they are written:
/// with no patterns the text itself, unsplit; in whole-document mode what the
/// chain keeps of the text; line by line what it keeps of each line.
pub open spec fn selected(patterns: Seq<Seq<char>>, text: Seq<char>, mode: SplitMode) -> Seq<
    Seq<char>,
> {
    if patterns.len() == 0 {
        seq![text]
    } else {
        match mode {
            SplitMode::WholeDocument => kept(patterns, text),
            SplitMode::LineByLine => survivors(patterns, split_on(text, '\n')),
        }
    }
}

/// Runs the chain on each text by itself and collects what it keeps.
pub fn filter_lines<'a>(stages: &Vec<Stage>, texts: &Vec<&'a str>) -> (records: Vec<&'a str>)
    ensures
        slices_view(records@) == survivors(patterns_of(stages@), slices_view(texts@)),
{
    let ghost patterns = patterns_of(stages@);
    let ghost all = slices_view(texts@);
    let mut records: Vec<&'a str> = Vec::new();
    let mut i: usize = 0;
    while i < texts.len()
        invariant
            i <= texts.len(),
            patterns == patterns_of(stages@),
            all == slices_view(texts@),
            slices_view(records@) == survivors(patterns, all.take(i as int)),
        decreases texts.len() - i,
    {
        let ghost before = slices_view(records@);
        proof {
            assert(all.take(i + 1).drop_last() =~= all.take(i as int));
            assert(all.take(i + 1).last() == texts[i as int]@);
        }
        match match_all_re(stages, texts[i]) {
            Some(found) => {
                records.push(found);
                assert(slices_view(records@) =~= before + seq![found@]);
            },
            None => {
                assert(before + Seq::<Seq<char>>::empty() =~= before);
            },
        }
        i += 1;
    }
    assert(all.take(i as int) =~= all);
    records
}

/// Produces the records of a run: see `selected`.
pub fn select<'a>(stages: &Vec<Stage>, text: &'a str, mode: SplitMode) -> (records: Vec<&'a str>)
    ensures
        slices_view(records@) == selected(patterns_of(stages@), text@, mode),
{
    let mut records: Vec<&'a str> = Vec::new();
    if stages.len() == 0 {
        records.push(text);
        assert(slices_view(records@) =~= seq![text@]);
        return records;
    }
    match mode {
        SplitMode::WholeDocument => {
            match match_all_re(stages, text) {
                Some(found) => {
                    records.push(found);
                    assert(slices_view(records@) =~= seq![found@]);
                },
                None => {
                    assert(slices_view(records@) =~= Seq::<Seq<char>>::empty());
                },
            }
            records
        },
        SplitMode::LineByLine => {
            let lines = split_lines(text);
            filter_lines(stages, &lines)
        },
    }
}

} // verus!
