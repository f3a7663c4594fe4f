//! Splitting a byte stream into lines.
use vstd::prelude::*;

verus! {

/// The byte that ends a line.
pub const NEWLINE: u8 = 10;

/// A carriage return, dropped when it stands right before [`NEWLINE`].
pub const CARRIAGE_RETURN: u8 = 13;

/// A terminated line without its terminator: the newline is already gone,
/// and a carriage return right before it is dropped as well.
pub open spec fn strip_cr(line: Seq<u8>) -> Seq<u8> {
    if line.len() > 0 && line.last() == CARRIAGE_RETURN {
        line.drop_last()
    } else {
        line
    }
}

/// Feeding `bytes` to a framer that holds the unterminated bytes `pending`:
/// the lines completed on the way, in order, and what is pending afterwards.
pub open spec fn frame_from(pending: Seq<u8>, bytes: Seq<u8>) -> (Seq<Seq<u8>>, Seq<u8>)
    decreases bytes.len(),
{
    if bytes.len() == 0 {
        (Seq::empty(), pending)
    } else {
        let (lines, rest) = frame_from(pending, bytes.drop_last());
        if bytes.last() == NEWLINE {
            (lines.push(strip_cr(rest)), Seq::empty())
        } else {
            (lines, rest.push(bytes.last()))
        }
    }
}

/// Every line of a whole stream: the terminated ones, then the bytes after
/// the last newline, if there are any.
pub open spec fn stream_lines(bytes: Seq<u8>) -> Seq<Seq<u8>> {
    let (lines, tail) = frame_from(Seq::empty(), bytes);
    if tail.len() == 0 {
        lines
    } else {
        lines.push(tail)
    }
}

/// A line as a program writes it: no newline in it, and no carriage return
/// at its end.
pub open spec fn is_plain_line(line: Seq<u8>) -> bool {
    &&& forall|i: int| 0 <= i < line.len() ==> line[i] != NEWLINE
    &&& !(line.len() > 0 && line.last() == CARRIAGE_RETURN)
}

/// The bytes of `lines`, each followed by a newline.
pub open spec fn terminated(lines: Seq<Seq<u8>>) -> Seq<u8>
    decreases lines.len(),
{
    if lines.len() == 0 {
        Seq::empty()
    } else {
        terminated(lines.drop_last()) + lines.last().push(NEWLINE)
    }
}

/// The views of a sequence of byte vectors.
pub open spec fn byte_views(v: Seq<Vec<u8>>) -> Seq<Seq<u8>> {
    v.map_values(|l: Vec<u8>| l@)
}

/// Framing does not depend on how the stream was cut into chunks: feeding
/// `a` and then `b` completes the lines that feeding `a + b` completes, and
/// leaves the same bytes pending.
pub proof fn lemma_frame_concat(pending: Seq<u8>, a: Seq<u8>, b: Seq<u8>)
    ensures
        frame_from(pending, a + b) == ({
            let (l1, q) = frame_from(pending, a);
            let (l2, r) = frame_from(q, b);
            (l1 + l2, r)
        }),
    decreases b.len(),
{
    let (l1, q) = frame_from(pending, a);
    if b.len() == 0 {
        assert(a + b =~= a);
        assert(l1 + Seq::<Seq<u8>>::empty() =~= l1);
    } else {
        lemma_frame_concat(pending, a, b.drop_last());
        assert((a + b).drop_last() =~= a + b.drop_last());
        let (l2, r) = frame_from(q, b.drop_last());
        assert((l1 + l2).push(strip_cr(r)) =~= l1 + l2.push(strip_cr(r)));
    }
}

/// Bytes without a newline only add to what is pending.
pub proof fn lemma_frame_no_newline(pending: Seq<u8>, bytes: Seq<u8>)
    requires
        forall|i: int| 0 <= i < bytes.len() ==> bytes[i] != NEWLINE,
    ensures
        frame_from(pending, bytes) == (Seq::<Seq<u8>>::empty(), pending + bytes),
    decreases bytes.len(),
{
    if bytes.len() == 0 {
        assert(pending + bytes =~= pending);
    } else {
        lemma_frame_no_newline(pending, bytes.drop_last());
        assert((pending + bytes.drop_last()).push(bytes.last()) =~= pending + bytes);
    }
}

/// A stream made of plain lines, each ending in a newline, frames into
/// exactly those lines, with nothing left pending.
pub proof fn lemma_frame_terminated(lines: Seq<Seq<u8>>)
    requires
        forall|i: int| 0 <= i < lines.len() ==> is_plain_line(#[trigger] lines[i]),
    ensures
        frame_from(Seq::empty(), terminated(lines)) == (lines, Seq::<u8>::empty()),
    decreases lines.len(),
{
    if lines.len() > 0 {
        let init = lines.drop_last();
        let last = lines.last();
        assert(is_plain_line(lines[lines.len() - 1]));
        lemma_frame_terminated(init);
        lemma_frame_concat(Seq::empty(), terminated(init), last.push(NEWLINE));
        assert(last.push(NEWLINE).drop_last() =~= last);
        lemma_frame_no_newline(Seq::empty(), last);
        assert(Seq::<u8>::empty() + last =~= last);
        assert(init + seq![last] =~= lines);
    }
}

/// Splits a byte stream that arrives in chunks into lines.
///
/// A line ends at a newline, which is removed together with a carriage
/// return right before it. Bytes after the last newline wait for the next
/// chunk, or for [`LineFramer::finish`] at the end of the stream.
pub struct LineFramer {
    pending: Vec<u8>,
}

impl View for LineFramer {
    type V = Seq<u8>;

    /// The bytes received since the last newline.
    closed spec fn view(&self) -> Seq<u8> {
        self.pending@
    }
}

impl LineFramer {
    /// A framer at the start of a stream.
    pub fn new() -> (r: LineFramer)
        ensures
            r@ == Seq::<u8>::empty(),
    {
        LineFramer { pending: Vec::new() }
    }

    /// The bytes received since the last newline.
    pub fn pending(&self) -> (r: &[u8])
        ensures
            r@ == self@,
    {
        self.pending.as_slice()
    }

    /// Takes in the next chunk of the stream and returns the lines it
    /// completes, in order.
    pub fn push(&mut self, chunk: &[u8]) -> (lines: Vec<Vec<u8>>)
        ensures
            (byte_views(lines@), final(self)@) == frame_from(old(self)@, chunk@),
    {
        let mut lines: Vec<Vec<u8>> = Vec::new();
        let mut i: usize = 0;
        while i < chunk.len()
            invariant
                i <= chunk@.len(),
                (byte_views(lines@), self@) == frame_from(old(self)@, chunk@.take(i as int)),
            decreases chunk@.len() - i,
        {
            let b = chunk[i];
            assert(chunk@.take(i + 1).drop_last() =~= chunk@.take(i as int));
            if b == NEWLINE {
                let mut line: Vec<u8> = Vec::new();
                std::mem::swap(&mut line, &mut self.pending);
                let n = line.len();
                if n > 0 && line[n - 1] == CARRIAGE_RETURN {
                    line.pop();
                }
                assert(line@ == strip_cr(frame_from(old(self)@, chunk@.take(i as int)).1));
                lines.push(line);
                assert(byte_views(lines@) =~= byte_views(lines@.drop_last()).push(line@));
            } else {
                self.pending.push(b);
            }
            i = i + 1;
        }
        assert(chunk@.take(i as int) =~= chunk@);
        lines
    }

    /// Ends the stream: returns the bytes after the last newline as a final
    /// line, if there are any, and starts over empty.
    pub fn finish(&mut self) -> (tail: Option<Vec<u8>>)
        ensures
            final(self)@ == Seq::<u8>::empty(),
            (tail is Some) <==> old(self)@.len() > 0,
            (tail is Some) ==> tail->0@ == old(self)@,
    {
        let mut rest: Vec<u8> = Vec::new();
        std::mem::swap(&mut rest, &mut self.pending);
        if rest.len() > 0 {
            Some(rest)
        } else {
            None
        }
    }
}

} // verus!
