//! Cutting the byte stream from the process into lines.
//!
//! The stream arrives in chunks of any size. A line is complete when its line feed has
//! arrived; what follows the last line feed waits for more.

use vstd::prelude::*;

verus! {

/// A stream cut into lines: the complete lines, each without its line feed, and the
/// bytes after the last line feed.
pub struct Split {
    pub lines: Seq<Seq<u8>>,
    pub rest: Seq<u8>,
}

/// The cut after one more byte: a line feed completes the line, any other byte joins it.
pub open spec fn fed(s: Split, byte: u8) -> Split {
    if byte == 10 {
        Split { lines: s.lines.push(s.rest), rest: Seq::empty() }
    } else {
        Split { lines: s.lines, rest: s.rest.push(byte) }
    }
}

/// The cut after `bytes` more, byte by byte.
pub open spec fn split_from(start: Split, bytes: Seq<u8>) -> Split
    decreases bytes.len(),
{
    if bytes.len() == 0 {
        start
    } else {
        fed(split_from(start, bytes.drop_last()), bytes.last())
    }
}

/// A cut with no line and `rest` waiting.
pub open spec fn waiting(rest: Seq<u8>) -> Split {
    Split { lines: Seq::empty(), rest }
}

/// The lines put together again, each with its line feed.
pub open spec fn joined(lines: Seq<Seq<u8>>) -> Seq<u8>
    decreases lines.len(),
{
    if lines.len() == 0 {
        Seq::empty()
    } else {
        joined(lines.drop_last()) + lines.last() + seq![10u8]
    }
}

/// Bytes without a line feed.
pub open spec fn feed_free(s: Seq<u8>) -> bool {
    forall|i: int| 0 <= i < s.len() ==> s[i] != 10
}

/// The contents of a sequence of byte vectors.
pub open spec fn line_views(v: Seq<Vec<u8>>) -> Seq<Seq<u8>> {
    Seq::new(v.len(), |i: int| v[i]@)
}

/// Where the stream is cut into chunks makes no difference to the lines that come out.
pub proof fn lemma_split_in_chunks(start: Split, a: Seq<u8>, b: Seq<u8>)
    ensures
        split_from(start, a + b) == split_from(split_from(start, a), b),
    decreases b.len(),
{
    if b.len() == 0 {
        assert(a + b =~= a);
    } else {
        lemma_split_in_chunks(start, a, b.drop_last());
        assert((a + b).drop_last() =~= a + b.drop_last());
        assert((a + b).last() == b.last());
    }
}

/// Cutting loses nothing and invents nothing: the lines with their line feeds, followed
/// by what waits, are the bytes that came, in order.
pub proof fn lemma_split_keeps_bytes(start: Split, bytes: Seq<u8>)
    ensures
        joined(split_from(start, bytes).lines) + split_from(start, bytes).rest == joined(
            start.lines,
        ) + start.rest + bytes,
    decreases bytes.len(),
{
    if bytes.len() == 0 {
        assert(joined(start.lines) + start.rest + bytes =~= joined(start.lines) + start.rest);
    } else {
        let before = split_from(start, bytes.drop_last());
        let after = split_from(start, bytes);
        lemma_split_keeps_bytes(start, bytes.drop_last());
        assert(bytes =~= bytes.drop_last().push(bytes.last()));
        if bytes.last() == 10 {
            assert(after.lines.drop_last() =~= before.lines);
            assert(after.lines.last() == before.rest);
            assert(joined(after.lines) + after.rest =~= joined(before.lines) + before.rest
                + seq![10u8]);
        } else {
            assert(joined(after.lines) + after.rest =~= (joined(before.lines) + before.rest).push(
                bytes.last(),
            ));
        }
        assert(joined(start.lines) + start.rest + bytes =~= (joined(start.lines) + start.rest
            + bytes.drop_last()).push(bytes.last()));
    }
}

/// No line that comes out holds a line feed, nor does what waits.
pub proof fn lemma_split_lines_are_lines(start: Split, bytes: Seq<u8>)
    requires
        feed_free(start.rest),
        forall|k: int| 0 <= k < start.lines.len() ==> feed_free(#[trigger] start.lines[k]),
    ensures
        feed_free(split_from(start, bytes).rest),
        forall|k: int|
            0 <= k < split_from(start, bytes).lines.len() ==> feed_free(
                #[trigger] split_from(start, bytes).lines[k],
            ),
    decreases bytes.len(),
{
    if bytes.len() > 0 {
        lemma_split_lines_are_lines(start, bytes.drop_last());
    }
}

/// The bytes that wait for their line feed.
#[derive(Debug)]
pub struct LineBuffer {
    rest: Vec<u8>,
}

impl View for LineBuffer {
    type V = Seq<u8>;

    closed spec fn view(&self) -> Seq<u8> {
        self.rest@
    }
}

impl LineBuffer {
    /// A buffer in which nothing waits.
    pub fn new() -> (b: Self)
        ensures
            b@ == Seq::<u8>::empty(),
    {
        LineBuffer { rest: Vec::new() }
    }

    /// Takes the next chunk of the stream and gives the lines that it completes, in
    /// order and without their line feeds.
    pub fn push(&mut self, chunk: &[u8]) -> (lines: Vec<Vec<u8>>)
        ensures
            line_views(lines@) == split_from(waiting(old(self)@), chunk@).lines,
            final(self)@ == split_from(waiting(old(self)@), chunk@).rest,
    {
        let ghost start = waiting(self@);
        let mut lines: Vec<Vec<u8>> = Vec::new();
        let mut i: usize = 0;
        assert(line_views(lines@) =~= Seq::<Seq<u8>>::empty());
        assert(chunk@.take(0) =~= Seq::<u8>::empty());
        while i < chunk.len()
            invariant
                i <= chunk@.len(),
                start == waiting(old(self)@),
                (Split { lines: line_views(lines@), rest: self@ }) == split_from(
                    start,
                    chunk@.take(i as int),
                ),
            decreases chunk@.len() - i,
        {
            let byte = chunk[i];
            proof {
                let upto = chunk@.take(i + 1);
                assert(upto.drop_last() =~= chunk@.take(i as int));
                assert(upto.last() == byte);
            }
            if byte == 10 {
                let mut line: Vec<u8> = Vec::new();
                std::mem::swap(&mut line, &mut self.rest);
                let ghost before = lines@;
                lines.push(line);
                assert(line_views(lines@) =~= line_views(before).push(line@));
            } else {
                self.rest.push(byte);
            }
            i += 1;
        }
        assert(chunk@.take(i as int) =~= chunk@);
        lines
    }

    /// Takes out what waits: at the end of the stream, the bytes of a last line that
    /// never got its line feed.
    pub fn take_rest(&mut self) -> (rest: Vec<u8>)
        ensures
            rest@ == old(self)@,
            final(self)@ == Seq::<u8>::empty(),
    {
        let mut rest: Vec<u8> = Vec::new();
        std::mem::swap(&mut rest, &mut self.rest);
        rest
    }
}

} // verus!
