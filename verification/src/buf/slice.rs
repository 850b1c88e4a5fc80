//! A window on a buffer.

use crate::buf::bounded::{BoundedBuf, Window};
use crate::buf::buffer::{lemma_single_part, Buffer};
use vstd::prelude::*;

verus! {

/// A window on a buffer in one part, which it owns.
#[derive(Debug, PartialEq, Eq)]
pub struct Slice {
    buf: Buffer,
    begin: usize,
    end: usize,
}

impl BoundedBuf for Slice {
    closed spec fn window(&self) -> Window {
        Window { buf: self.buf@, begin: self.begin as nat, end: self.end as nat }
    }

    fn get_buf(&self) -> (r: &Buffer) {
        &self.buf
    }

    fn stable_ptr(&self) -> (r: usize) {
        proof {
            lemma_single_part(self.buf@.parts);
            assert(self.buf@.parts[0].wf());
        }
        self.buf.part(0).addr + self.begin
    }

    fn bytes_init(&self) -> (r: usize) {
        let len: usize = self.buf.bytes_init();
        if self.end <= len {
            self.end - self.begin
        } else {
            len - self.begin
        }
    }

    fn bytes_total(&self) -> (r: usize) {
        self.end - self.begin
    }

    fn set_init(&mut self, n: usize) {
        self.buf.set_init(self.begin + n);
    }
}

impl Slice {
    /// The bytes of `buf` from `begin` to `end`.
    pub fn new(buf: Buffer, begin: usize, end: usize) -> (r: Slice)
        requires
            buf@.wf(),
            buf@.parts.len() == 1,
            begin <= end <= buf@.parts[0].cap,
            begin <= buf@.parts[0].len,
        ensures
            r.window() == (Window { buf: buf@, begin: begin as nat, end: end as nat }),
            r.window().wf(),
    {
        proof {
            lemma_single_part(buf@.parts);
        }
        Slice { buf, begin, end }
    }

    /// The whole buffer.
    pub fn into_inner(self) -> (r: Buffer)
        ensures
            r@ == self.window().buf,
    {
        self.buf
    }
}

} // verus!
