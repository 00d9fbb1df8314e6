use vstd::prelude::*;

verus! {

/// The byte that ends a line.
pub const NEWLINE: u8 = 10;

/// The text that a sequence of complete lines stands for: each line
/// followed by its terminator.
pub open spec fn joined(lines: Seq<Seq<u8>>) -> Seq<u8>
    decreases lines.len(),
{
    if lines.len() == 0 {
        Seq::empty()
    } else {
        joined(lines.drop_last()) + lines.last() + seq![NEWLINE]
    }
}

pub open spec fn has_no_newline(s: Seq<u8>) -> bool {
    forall|i: int| 0 <= i < s.len() ==> s[i] != NEWLINE
}

/// Requested a line that has not been read.
#[derive(Debug, Clone, Copy, PartialEq, Eq)]
pub struct OutOfRange {
    pub index: usize,
    pub count: usize,
}

/// The lines read from the source so far, append-only.
pub struct TextBuffer {
    pub lines: Vec<Vec<u8>>,
    /// Bytes after the last terminator, not yet a line.
    pub pending: Vec<u8>,
    pub closed: bool,
}

impl TextBuffer {
    pub open spec fn line_seq(&self) -> Seq<Seq<u8>> {
        self.lines@.map_values(|l: Vec<u8>| l@)
    }

    /// Everything the source has produced so far.
    pub open spec fn text(&self) -> Seq<u8> {
        joined(self.line_seq()) + self.pending@
    }

    /// No stored line holds a terminator, nor does the unfinished tail.
    pub open spec fn wf(&self) -> bool {
        &&& forall|i: int| 0 <= i < self.lines@.len() ==> has_no_newline(#[trigger] self.lines@[i]@)
        &&& has_no_newline(self.pending@)
        &&& self.closed ==> self.pending@.len() == 0
    }

    pub fn new() -> (r: TextBuffer)
        ensures
            r.wf(),
            r.line_seq() == Seq::<Seq<u8>>::empty(),
            r.pending@ == Seq::<u8>::empty(),
            !r.closed,
    {
        TextBuffer { lines: Vec::new(), pending: Vec::new(), closed: false }
    }

    /// Splits `bytes` on terminators: each terminator completes a line; the
    /// bytes after the last one wait for more input.
    pub fn append(&mut self, bytes: &[u8])
        requires
            old(self).wf(),
            !old(self).closed,
        ensures
            final(self).wf(),
            !final(self).closed,
            final(self).text() == old(self).text() + bytes@,
            old(self).line_seq().is_prefix_of(final(self).line_seq()),
    {
        let ghost start = self.text();
        let ghost old_lines = self.line_seq();
        let mut i: usize = 0;
        while i < bytes.len()
            invariant
                self.wf(),
                !self.closed,
                i <= bytes@.len(),
                self.text() == start + bytes@.subrange(0, i as int),
                old_lines.is_prefix_of(self.line_seq()),
            decreases bytes@.len() - i,
        {
            let b = bytes[i];
            let ghost before = self.line_seq();
            if b == NEWLINE {
                let mut line: Vec<u8> = Vec::new();
                std::mem::swap(&mut line, &mut self.pending);
                self.lines.push(line);
                proof {
                    assert(self.line_seq() == before.push(line@));
                    assert(self.line_seq().drop_last() == before);
                    assert(joined(self.line_seq()) == joined(before) + line@ + seq![NEWLINE]);
                    assert(self.pending@ == Seq::<u8>::empty());
                    assert(self.text() == joined(before) + line@ + seq![b]);
                }
            } else {
                let ghost p = self.pending@;
                self.pending.push(b);
                proof {
                    assert(self.line_seq() == before);
                    assert(self.pending@ == p + seq![b]);
                    assert(self.text() == joined(before) + p + seq![b]);
                }
            }
            proof {
                assert(bytes@.subrange(0, i + 1) == bytes@.subrange(0, i as int).push(b));
                assert(self.text() == start + bytes@.subrange(0, i + 1));
            }
            i = i + 1;
        }
        proof {
            assert(bytes@.subrange(0, bytes@.len() as int) == bytes@);
        }
    }

    /// The source has ended: an unfinished tail becomes the last line.
    pub fn close(&mut self)
        requires
            old(self).wf(),
        ensures
            final(self).wf(),
            final(self).closed,
            old(self).pending@.len() == 0 ==> final(self).line_seq() == old(self).line_seq(),
            old(self).pending@.len() > 0 ==> final(self).line_seq() == old(self).line_seq().push(
                old(self).pending@,
            ),
    {
        if self.pending.len() > 0 {
            let mut line: Vec<u8> = Vec::new();
                std::mem::swap(&mut line, &mut self.pending);
            self.lines.push(line);
            proof {
                assert(self.line_seq() == old(self).line_seq().push(line@));
            }
        }
        self.closed = true;
    }

    pub fn line_count(&self) -> (r: usize)
        ensures
            r == self.lines@.len(),
    {
        self.lines.len()
    }

    pub fn line_at(&self, index: usize) -> (r: Result<&Vec<u8>, OutOfRange>)
        ensures
            index < self.lines@.len() ==> (r matches Ok(l) && l@ == self.lines@[index as int]@),
            index >= self.lines@.len() ==> r == Err::<&Vec<u8>, OutOfRange>(
                OutOfRange { index, count: self.lines@.len() as usize },
            ),
    {
        if index < self.lines.len() {
            Ok(&self.lines[index])
        } else {
            Err(OutOfRange { index, count: self.lines.len() })
        }
    }

    pub fn is_closed(&self) -> (r: bool)
        ensures
            r == self.closed,
    {
        self.closed
    }
}

} // verus!
