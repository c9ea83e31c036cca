//! A line-buffered reader layered over a stream's single-byte reads.
//!
//! The reader accumulates bytes until a newline arrives, then hands the whole
//! line (newline included) out and starts over. The reads themselves — one
//! byte per await — are the stream's business; this type only decides, from
//! each read's result, whether a line is complete, more bytes are needed, or
//! the peer hit end of file.

use vstd::prelude::*;

verus! {

/// The newline byte that terminates a line.
pub const LINE_END: u8 = 10;

/// What one completed single-byte read means for the line in progress.
#[derive(Debug)]
pub enum LineStep {
    /// A newline arrived: the finished line, terminator included.
    Line(Vec<u8>),
    /// An ordinary byte joined the line in progress: keep reading.
    More,
    /// The read returned zero bytes: the peer sent end of file.
    Eof,
}

/// The line-buffered reader: the bytes of the line in progress.
pub struct BufRead {
    buffer: Vec<u8>,
}

impl BufRead {
    /// The bytes accumulated toward the next line, oldest first.
    pub closed spec fn pending(self) -> Seq<u8> {
        self.buffer@
    }

    /// No newline hides in the line in progress: a finished line carries its
    /// terminator at the end and nowhere else.
    pub open spec fn wf(self) -> bool {
        forall|i: int| 0 <= i < self.pending().len() ==> self.pending()[i] != LINE_END
    }

    /// A fresh reader with nothing accumulated.
    pub fn new() -> (r: BufRead)
        ensures
            r.pending() == Seq::<u8>::empty(),
            r.wf(),
    {
        BufRead { buffer: Vec::new() }
    }

    /// Account for one single-byte read: `n` is the read's byte count and
    /// `byte` the byte read when `n` is positive. Zero bytes mean end of
    /// file; a newline completes the line and empties the buffer; any other
    /// byte joins the line in progress.
    pub fn on_read(&mut self, n: usize, byte: u8) -> (r: LineStep)
        requires
            old(self).wf(),
        ensures
            final(self).wf(),
            n == 0 ==> r is Eof && *final(self) == *old(self),
            n > 0 && byte == LINE_END ==> {
                &&& r matches LineStep::Line(l) && l@ == old(self).pending().push(LINE_END)
                &&& final(self).pending() == Seq::<u8>::empty()
            },
            n > 0 && byte != LINE_END ==> r is More && final(self).pending() == old(
                self,
            ).pending().push(byte),
            r matches LineStep::Line(l) ==> l@.len() > 0 && l@.last() == LINE_END && forall|i: int|
                0 <= i < l@.len() - 1 ==> l@[i] != LINE_END,
    {
        if n == 0 {
            LineStep::Eof
        } else {
            self.buffer.push(byte);
            if byte == LINE_END {
                let mut line: Vec<u8> = Vec::new();
                core::mem::swap(&mut self.buffer, &mut line);
                proof {
                    assert(forall|i: int|
                        0 <= i < line@.len() - 1 ==> line@[i] == old(self).pending()[i]);
                }
                LineStep::Line(line)
            } else {
                proof {
                    assert(forall|i: int|
                        0 <= i < self.pending().len() - 1 ==> self.pending()[i] == old(
                            self,
                        ).pending()[i]);
                }
                LineStep::More
            }
        }
    }
}

} // verus!
