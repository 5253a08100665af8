//! Character sequences: the characters of a string, and splitting at a separator.

use vstd::prelude::*;
use vstd::slice::slice_subrange;

verus! {

/// The index of the first `sep` in `s`, or `s.len()` where `s` holds none.
pub open spec fn first_index(s: Seq<char>, sep: char) -> int
    decreases s.len(),
{
    if s.len() == 0 || s[0] == sep {
        0
    } else {
        1 + first_index(s.drop_first(), sep)
    }
}

/// The pieces of `s` between occurrences of `sep`, in order. There is one piece more than
/// there are separators, so at least one; pieces may be empty.
pub open spec fn split(s: Seq<char>, sep: char) -> Seq<Seq<char>>
    decreases s.len(),
{
    let i = first_index(s, sep);
    if 0 <= i < s.len() {
        seq![s.take(i)] + split(s.skip(i + 1), sep)
    } else {
        seq![s]
    }
}

/// The pieces put together again, with one `sep` between neighbours.
pub open spec fn join(pieces: Seq<Seq<char>>, sep: char) -> Seq<char>
    decreases pieces.len(),
{
    if pieces.len() == 0 {
        Seq::empty()
    } else if pieces.len() == 1 {
        pieces[0]
    } else {
        pieces[0] + seq![sep] + join(pieces.drop_first(), sep)
    }
}

/// `first_index` is in range, nothing before it is the separator, and it points at a
/// separator unless it is the length.
pub proof fn lemma_first_index(s: Seq<char>, sep: char)
    ensures
        0 <= first_index(s, sep) <= s.len(),
        forall|j: int| 0 <= j < first_index(s, sep) ==> s[j] != sep,
        first_index(s, sep) < s.len() ==> s[first_index(s, sep)] == sep,
        !s.contains(sep) <==> first_index(s, sep) == s.len(),
    decreases s.len(),
{
    if s.len() == 0 || s[0] == sep {
    } else {
        let rest = s.drop_first();
        lemma_first_index(rest, sep);
        assert forall|j: int| 0 <= j < first_index(s, sep) implies s[j] != sep by {
            if j > 0 {
                assert(s[j] == rest[j - 1]);
            }
        }
    }
}

/// Any index that points at the first separator, or at the end of a sequence without one,
/// is `first_index`.
pub proof fn lemma_first_index_is(s: Seq<char>, sep: char, i: int)
    requires
        0 <= i <= s.len(),
        forall|j: int| 0 <= j < i ==> s[j] != sep,
        i < s.len() ==> s[i] == sep,
    ensures
        first_index(s, sep) == i,
{
    lemma_first_index(s, sep);
}

/// A sequence without the separator is its own single piece.
pub proof fn lemma_split_whole(s: Seq<char>, sep: char)
    requires
        !s.contains(sep),
    ensures
        split(s, sep) == seq![s],
{
    lemma_first_index(s, sep);
}

/// Splitting `head`, a separator and `tail`, where `head` holds no separator, gives `head`
/// and then the pieces of `tail`.
pub proof fn lemma_split_step(head: Seq<char>, tail: Seq<char>, sep: char)
    requires
        !head.contains(sep),
    ensures
        split(head + seq![sep] + tail, sep) == seq![head] + split(tail, sep),
{
    let s = head + seq![sep] + tail;
    assert forall|j: int| 0 <= j < head.len() implies s[j] != sep by {
        assert(head.contains(s[j]));
    }
    lemma_first_index_is(s, sep, head.len() as int);
    assert(s.take(head.len() as int) == head);
    assert(s.skip(head.len() as int + 1) == tail);
}

/// Splitting gives at least one piece, and no piece holds the separator.
pub proof fn lemma_split_pieces(s: Seq<char>, sep: char)
    ensures
        split(s, sep).len() >= 1,
        forall|k: int|
            0 <= k < split(s, sep).len() ==> !(#[trigger] split(s, sep)[k]).contains(sep),
    decreases s.len(),
{
    lemma_first_index(s, sep);
    let i = first_index(s, sep);
    if 0 <= i < s.len() {
        let tail = s.skip(i + 1);
        lemma_split_pieces(tail, sep);
        assert forall|k: int| 0 <= k < split(s, sep).len() implies !(#[trigger] split(
            s,
            sep,
        )[k]).contains(sep) by {
            if k == 0 {
                let head = s.take(i);
                if head.contains(sep) {
                    let j = choose|j: int| 0 <= j < head.len() && head[j] == sep;
                    assert(s[j] == sep);
                }
            } else {
                assert(split(s, sep)[k] == split(tail, sep)[k - 1]);
            }
        }
    }
}

/// Joining the pieces of a sequence gives the sequence back.
pub proof fn lemma_join_split(s: Seq<char>, sep: char)
    ensures
        join(split(s, sep), sep) == s,
    decreases s.len(),
{
    lemma_first_index(s, sep);
    let i = first_index(s, sep);
    if 0 <= i < s.len() {
        let tail = s.skip(i + 1);
        lemma_join_split(tail, sep);
        let pieces = split(s, sep);
        assert(pieces.drop_first() == split(tail, sep));
    }
}

/// Splitting what was joined from pieces without the separator, at least one of them,
/// gives the pieces back.
pub proof fn lemma_split_join(pieces: Seq<Seq<char>>, sep: char)
    requires
        pieces.len() >= 1,
        forall|k: int| 0 <= k < pieces.len() ==> !(#[trigger] pieces[k]).contains(sep),
    ensures
        split(join(pieces, sep), sep) == pieces,
    decreases pieces.len(),
{
    if pieces.len() == 1 {
        lemma_split_whole(pieces[0], sep);
    } else {
        let rest = pieces.drop_first();
        assert forall|k: int| 0 <= k < rest.len() implies !(#[trigger] rest[k]).contains(sep) by {
            assert(rest[k] == pieces[k + 1]);
        }
        lemma_split_join(rest, sep);
        lemma_split_step(pieces[0], join(rest, sep), sep);
    }
}

/// A range of positions in a text, from `start` up to `end`, `end` not included.
#[derive(Clone, Copy, Debug, PartialEq, Eq, Structural)]
pub struct Span {
    pub start: usize,
    pub end: usize,
}

impl Span {
    /// The range lies within a text of `len` characters.
    pub open spec fn fits(self, len: nat) -> bool {
        self.start <= self.end <= len
    }

    /// The characters of `text` that the range covers.
    pub open spec fn of(self, text: Seq<char>) -> Seq<char> {
        text.subrange(self.start as int, self.end as int)
    }

    /// How many characters the range covers.
    pub fn len(&self) -> (len: usize)
        requires
            self.start <= self.end,
        ensures
            len == self.end - self.start,
    {
        self.end - self.start
    }

    /// The characters of `text` that the range covers.
    pub fn slice<'a>(&self, text: &'a [char]) -> (part: &'a [char])
        requires
            self.fits(text@.len()),
        ensures
            part@ == self.of(text@),
    {
        slice_subrange(text, self.start, self.end)
    }
}

/// The characters of `text`, in order.
pub fn chars_of(text: &str) -> (chars: Vec<char>)
    ensures
        chars@ == text@,
{
    let mut chars: Vec<char> = Vec::new();
    for c in it: text.chars()
        invariant
            chars@ == it.seq().take(it.index() as int),
            it.seq() == text@,
    {
        chars.push(c);
    }
    chars
}

/// Whether `chars` spells `word`.
pub fn spells(chars: &[char], word: &str) -> (same: bool)
    ensures
        same == (chars@ == word@),
{
    let mut i: usize = 0;
    for c in it: word.chars()
        invariant
            i == it.index(),
            it.seq() == word@,
            i <= chars@.len(),
            chars@.take(i as int) == word@.take(i as int),
    {
        if i >= chars.len() || chars[i] != c {
            return false;
        }
        i += 1;
    }
    assert(word@.take(i as int) == word@);
    if i == chars.len() {
        assert(chars@.take(i as int) == chars@);
        true
    } else {
        false
    }
}

/// `spans` are the places of the pieces of the part of `text` under `within`, split at
/// `sep`: one span for each piece, in order, the first from the start of `within`, each
/// next one from just behind the separator that ends the one before, the last up to the
/// end of `within`.
pub open spec fn marks_pieces(spans: Seq<Span>, text: Seq<char>, within: Span, sep: char) -> bool {
    let pieces = split(within.of(text), sep);
    &&& spans.len() == pieces.len()
    &&& spans.len() >= 1
    &&& spans.first().start == within.start
    &&& spans.last().end == within.end
    &&& forall|k: int|
        0 <= k < spans.len() ==> {
            &&& within.start <= (#[trigger] spans[k]).start
            &&& spans[k].start <= spans[k].end
            &&& spans[k].end <= within.end
            &&& spans[k].of(text) == pieces[k]
        }
    &&& forall|k: int|
        0 <= k < spans.len() - 1 ==> (#[trigger] spans[k + 1]).start == spans[k].end + 1
}

/// Where the pieces of the part of `text` under `within` lie, split at `sep`.
pub fn split_spans(text: &[char], within: Span, sep: char) -> (spans: Vec<Span>)
    requires
        within.fits(text@.len()),
    ensures
        marks_pieces(spans@, text@, within, sep),
{
    let ghost whole = within.of(text@);
    let mut spans: Vec<Span> = Vec::new();
    let mut start: usize = within.start;
    let mut i: usize = within.start;
    while i < within.end
        invariant
            within.fits(text@.len()),
            whole == within.of(text@),
            within.start <= start <= i <= within.end,
            forall|j: int| start <= j < i ==> text@[j] != sep,
            split(whole, sep) == spans@.map_values(|p: Span| p.of(text@)) + split(
                text@.subrange(start as int, within.end as int),
                sep,
            ),
            forall|k: int|
                0 <= k < spans@.len() ==> {
                    &&& within.start <= (#[trigger] spans@[k]).start
                    &&& spans@[k].start <= spans@[k].end
                    &&& spans@[k].end <= within.end
                },
            forall|k: int|
                0 <= k < spans@.len() - 1 ==> (#[trigger] spans@[k + 1]).start == spans@[k].end
                    + 1,
            spans@.len() == 0 ==> start == within.start,
            spans@.len() > 0 ==> spans@.first().start == within.start && start
                == spans@.last().end + 1,
        decreases within.end - i,
    {
        if text[i] == sep {
            let piece = Span { start, end: i };
            proof {
                let rest = text@.subrange(start as int, within.end as int);
                let head = text@.subrange(start as int, i as int);
                let tail = text@.subrange(i + 1, within.end as int);
                assert(rest == head + seq![sep] + tail);
                assert(!head.contains(sep)) by {
                    if head.contains(sep) {
                        let j = choose|j: int| 0 <= j < head.len() && head[j] == sep;
                        assert(text@[start + j] == sep);
                    }
                }
                lemma_split_step(head, tail, sep);
            }
            spans.push(piece);
            start = i + 1;
        }
        i += 1;
    }
    let piece = Span { start, end: within.end };
    proof {
        let rest = text@.subrange(start as int, within.end as int);
        assert(!rest.contains(sep)) by {
            if rest.contains(sep) {
                let j = choose|j: int| 0 <= j < rest.len() && rest[j] == sep;
                assert(text@[start + j] == sep);
            }
        }
        lemma_split_whole(rest, sep);
    }
    spans.push(piece);
    spans
}

} // verus!
