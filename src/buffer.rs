//! Bounded history of a session's output: a sliding window over the
//! byte stream that the shell produced.

use vstd::prelude::*;

verus! {

/// Capacity of a session's output history (2 MiB).
pub const MAX_BUFFER_SIZE: usize = 2097152;

/// The last `cap` elements of `s`, or all of `s` when it is shorter.
pub open spec fn tail_window(s: Seq<u8>, cap: nat) -> Seq<u8> {
    if s.len() <= cap {
        s
    } else {
        s.subrange(s.len() - cap, s.len() as int)
    }
}

/// All chunks one after another.
pub open spec fn concat_chunks(chunks: Seq<Seq<u8>>) -> Seq<u8>
    decreases chunks.len(),
{
    if chunks.len() == 0 {
        Seq::empty()
    } else {
        concat_chunks(chunks.drop_last()) + chunks.last()
    }
}

/// The history after appending each chunk in turn to an empty buffer.
pub open spec fn replay(chunks: Seq<Seq<u8>>) -> Seq<u8>
    decreases chunks.len(),
{
    if chunks.len() == 0 {
        Seq::empty()
    } else {
        tail_window(replay(chunks.drop_last()) + chunks.last(), MAX_BUFFER_SIZE as nat)
    }
}

/// A session's output history, never longer than `MAX_BUFFER_SIZE`.
pub struct OutputBuffer {
    bytes: Vec<u8>,
}

impl View for OutputBuffer {
    type V = Seq<u8>;

    closed spec fn view(&self) -> Seq<u8> {
        self.bytes@
    }
}

impl OutputBuffer {
    pub open spec fn wf(&self) -> bool {
        self@.len() <= MAX_BUFFER_SIZE
    }

    pub fn new() -> (r: OutputBuffer)
        ensures
            r@ == Seq::<u8>::empty(),
            r.wf(),
    {
        OutputBuffer { bytes: Vec::new() }
    }

    pub fn len(&self) -> (r: usize)
        ensures
            r == self@.len(),
    {
        self.bytes.len()
    }

    pub fn is_empty(&self) -> (r: bool)
        ensures
            r == (self@.len() == 0),
    {
        self.bytes.len() == 0
    }

    /// A copy of the current history.
    pub fn snapshot(&self) -> (r: Vec<u8>)
        ensures
            r@ == self@,
    {
        let mut out: Vec<u8> = Vec::new();
        let mut i: usize = 0;
        while i < self.bytes.len()
            invariant
                i <= self.bytes@.len(),
                out@ == self.bytes@.subrange(0, i as int),
            decreases self.bytes@.len() - i,
        {
            out.push(self.bytes[i]);
            i = i + 1;
            assert(out@ =~= self.bytes@.subrange(0, i as int));
        }
        assert(out@ =~= self.bytes@);
        out
    }

    /// Appends a chunk of output, evicting the oldest bytes so that at most
    /// `MAX_BUFFER_SIZE` remain. Of a chunk longer than the capacity only its
    /// last `MAX_BUFFER_SIZE` bytes are kept.
    pub fn append(&mut self, chunk: &[u8])
        requires
            old(self).wf(),
        ensures
            final(self).wf(),
            final(self)@ == tail_window(old(self)@ + chunk@, MAX_BUFFER_SIZE as nat),
    {
        let n = chunk.len();
        let start: usize = if n > MAX_BUFFER_SIZE {
            n - MAX_BUFFER_SIZE
        } else {
            0
        };
        let stored: usize = n - start;
        let len = self.bytes.len();
        let overflow: usize = if len + stored > MAX_BUFFER_SIZE {
            len + stored - MAX_BUFFER_SIZE
        } else {
            0
        };
        let ghost old_bytes = self.bytes@;
        let mut out: Vec<u8> = Vec::new();
        let mut i: usize = overflow;
        while i < len
            invariant
                overflow <= i <= len,
                len == self.bytes@.len(),
                out@ == self.bytes@.subrange(overflow as int, i as int),
            decreases len - i,
        {
            out.push(self.bytes[i]);
            i = i + 1;
            assert(out@ =~= self.bytes@.subrange(overflow as int, i as int));
        }
        let mut j: usize = start;
        while j < n
            invariant
                start <= j <= n,
                n == chunk@.len(),
                len == old_bytes.len(),
                out@ == old_bytes.subrange(overflow as int, len as int) + chunk@.subrange(
                    start as int,
                    j as int,
                ),
            decreases n - j,
        {
            out.push(chunk[j]);
            j = j + 1;
            assert(out@ =~= old_bytes.subrange(overflow as int, len as int) + chunk@.subrange(
                start as int,
                j as int,
            ));
        }
        proof {
            let all = old_bytes + chunk@;
            let cap = MAX_BUFFER_SIZE as nat;
            if all.len() <= cap {
                assert(out@ =~= all);
            } else {
                assert(out@ =~= all.subrange(all.len() - cap, all.len() as int));
            }
        }
        self.bytes = out;
    }
}

/// The window of the last `cap` elements does not depend on how much older
/// history was already cut off before more elements were added.
pub proof fn lemma_window_absorbs(a: Seq<u8>, b: Seq<u8>, cap: nat)
    ensures
        tail_window(tail_window(a, cap) + b, cap) == tail_window(a + b, cap),
{
    let w = tail_window(a, cap);
    if a.len() > cap {
        let lhs = tail_window(w + b, cap);
        let rhs = tail_window(a + b, cap);
        assert(lhs =~= rhs);
    }
}

/// For every sequence of appended chunks, the history stays within
/// `MAX_BUFFER_SIZE` and equals the last `min(total, MAX_BUFFER_SIZE)` bytes
/// of everything that was appended.
pub proof fn lemma_buffer_is_suffix_window(chunks: Seq<Seq<u8>>)
    ensures
        replay(chunks).len() <= MAX_BUFFER_SIZE,
        replay(chunks) == tail_window(concat_chunks(chunks), MAX_BUFFER_SIZE as nat),
    decreases chunks.len(),
{
    if chunks.len() > 0 {
        let rest = chunks.drop_last();
        lemma_buffer_is_suffix_window(rest);
        lemma_window_absorbs(concat_chunks(rest), chunks.last(), MAX_BUFFER_SIZE as nat);
    }
}

} // verus!
