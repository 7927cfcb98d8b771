//! Counting newline bytes over a stream that arrives in chunks.
use vstd::prelude::*;

verus! {

/// The newline byte.
pub const NEWLINE: u8 = 0x0A;

/// How many times `needle` occurs in `s`.
pub open spec fn occurrences(s: Seq<u8>, needle: u8) -> nat
    decreases s.len(),
{
    if s.len() == 0 {
        0
    } else {
        occurrences(s.drop_last(), needle) + if s.last() == needle {
            1nat
        } else {
            0nat
        }
    }
}

/// Occurrences in a concatenation add up.
pub proof fn lemma_occurrences_concat(a: Seq<u8>, b: Seq<u8>, needle: u8)
    ensures
        occurrences(a + b, needle) == occurrences(a, needle) + occurrences(b, needle),
    decreases b.len(),
{
    if b.len() > 0 {
        lemma_occurrences_concat(a, b.drop_last(), needle);
        assert((a + b).drop_last() =~= a + b.drop_last());
    }
}

/// A byte cannot occur more often than the sequence is long.
pub proof fn lemma_occurrences_bounded(s: Seq<u8>, needle: u8)
    ensures
        occurrences(s, needle) <= s.len(),
    decreases s.len(),
{
    if s.len() > 0 {
        lemma_occurrences_bounded(s.drop_last(), needle);
    }
}

/// A stream of nothing but newlines counts one line per byte, whatever
/// chunks it arrived in; the empty stream counts none.
pub proof fn lemma_only_newlines(s: Seq<u8>)
    requires
        forall|i: int| 0 <= i < s.len() ==> s[i] == NEWLINE,
    ensures
        occurrences(s, NEWLINE) == s.len(),
    decreases s.len(),
{
    if s.len() > 0 {
        lemma_only_newlines(s.drop_last());
    }
}

/// Relies on bytecount::count: the number of bytes of `haystack` equal to
/// `needle`.
#[verifier::external_body]
fn byte_count(haystack: &[u8], needle: u8) -> (r: usize)
    ensures
        r as nat == occurrences(haystack@, needle),
{
    bytecount::count(haystack, needle)
}

/// A running count of the newline bytes in everything fed to it so far.
pub struct LineCounter {
    lines: usize,
    seen: Ghost<Seq<u8>>,
}

impl View for LineCounter {
    type V = Seq<u8>;

    /// The bytes fed so far.
    closed spec fn view(&self) -> Seq<u8> {
        self.seen@
    }
}

impl LineCounter {
    /// The count kept is the number of newlines in the bytes fed so far.
    pub closed spec fn wf(&self) -> bool {
        self.lines as nat == occurrences(self.seen@, NEWLINE)
    }

    /// A counter that has seen nothing.
    pub fn new() -> (r: LineCounter)
        ensures
            r.wf(),
            r@ == Seq::<u8>::empty(),
    {
        LineCounter { lines: 0, seen: Ghost(Seq::empty()) }
    }

    /// The number of newline bytes seen so far.
    pub fn lines(&self) -> (r: usize)
        requires
            self.wf(),
        ensures
            r as nat == occurrences(self@, NEWLINE),
    {
        self.lines
    }

    /// A stream of only newlines, fed in any chunks: after each chunk the
    /// count is the number of bytes seen, so a chunk boundary loses nothing.
    pub proof fn lemma_newline_stream(before: LineCounter, after: LineCounter, chunk: Seq<u8>)
        requires
            forall|i: int| 0 <= i < before@.len() ==> before@[i] == NEWLINE,
            forall|i: int| 0 <= i < chunk.len() ==> chunk[i] == NEWLINE,
            after@ == before@ + chunk,
        ensures
            occurrences(after@, NEWLINE) == before@.len() + chunk.len(),
    {
        assert forall|i: int| 0 <= i < after@.len() implies after@[i] == NEWLINE by {
            if i >= before@.len() {
                assert(after@[i] == chunk[i - before@.len()]);
            }
        }
        lemma_only_newlines(after@);
    }

    /// Takes in the next chunk of the stream.
    pub fn feed(&mut self, chunk: &[u8])
        requires
            old(self).wf(),
            occurrences(old(self)@, NEWLINE) + chunk@.len() <= usize::MAX,
        ensures
            final(self).wf(),
            final(self)@ == old(self)@ + chunk@,
    {
        let found = byte_count(chunk, NEWLINE);
        proof {
            lemma_occurrences_bounded(chunk@, NEWLINE);
            lemma_occurrences_concat(self.seen@, chunk@, NEWLINE);
        }
        self.lines = self.lines + found;
        self.seen = Ghost(self.seen@ + chunk@);
    }
}

} // verus!
