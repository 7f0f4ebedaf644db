use vstd::prelude::*;

verus! {

/// A lookahead buffer over an owned sequence of elements (characters for the
/// tokenizer, tokens for the parser): a single-element peek and an explicit
/// advance, which is a no-op past the end.
#[derive(Debug)]
pub struct ChainReader<T> {
    pub data: Vec<T>,
    pub pos: usize,
}

impl<T> ChainReader<T> {
    /// The cursor never runs past the end of the buffer.
    pub open spec fn wf(self) -> bool {
        self.pos <= self.data.len()
    }

    pub fn new(data: Vec<T>) -> (r: ChainReader<T>)
        ensures
            r.data == data,
            r.pos == 0,
            r.wf(),
    {
        ChainReader { data, pos: 0 }
    }

    /// Peek at the current element without consuming it; `None` once the
    /// buffer is exhausted.
    pub fn get_current(&self) -> (r: Option<&T>)
        ensures
            match r {
                Some(t) => self.pos < self.data.len() && *t == self.data[self.pos as int],
                None => self.pos >= self.data.len(),
            },
    {
        if self.pos < self.data.len() {
            Some(&self.data[self.pos])
        } else {
            None
        }
    }

    /// Move the cursor forward by one element; a no-op past the end.
    pub fn advance(&mut self)
        ensures
            final(self).data == old(self).data,
            final(self).pos == if old(self).pos < old(self).data.len() {
                old(self).pos + 1
            } else {
                old(self).pos as int
            },
            old(self).wf() ==> final(self).wf(),
    {
        if self.pos < self.data.len() {
            self.pos = self.pos + 1;
        }
    }
}

} // verus!
