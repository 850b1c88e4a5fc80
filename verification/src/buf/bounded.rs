//! Buffers and windows on buffers, as operations take them.

use crate::buf::buffer::{lemma_len_within_cap, total_cap, total_len, Buffer, BufferView};
use vstd::prelude::*;

verus! {

/// The bytes of a buffer from `begin` to `end`.
#[verifier::ext_equal]
pub struct Window {
    pub buf: BufferView,
    pub begin: nat,
    pub end: nat,
}

impl Window {
    /// The validity of a window: it lies in a valid buffer and begins no later than
    /// the bytes in use end. Only a buffer in one part has windows other than itself.
    pub open spec fn wf(self) -> bool {
        &&& self.buf.wf()
        &&& self.begin <= self.end <= total_cap(self.buf.parts)
        &&& self.begin <= total_len(self.buf.parts)
        &&& self.buf.parts.len() == 1 || (self.begin == 0 && self.end == total_cap(
            self.buf.parts,
        ))
    }

    /// The address at which a window on a buffer in one part begins.
    pub open spec fn addr(self) -> int {
        self.buf.parts[0].addr + self.begin
    }

    /// The number of bytes in the window.
    pub open spec fn total(self) -> int {
        self.end - self.begin
    }

    /// The number of bytes in the window that are in use.
    pub open spec fn used(self) -> int {
        if self.end <= total_len(self.buf.parts) {
            self.end - self.begin
        } else {
            total_len(self.buf.parts) - self.begin
        }
    }

    /// The window once the bytes in use end `n` bytes after its beginning.
    pub open spec fn with_len(self, n: nat) -> Window {
        Window { buf: self.buf.with_len(self.begin + n), ..self }
    }
}

/// A buffer, or a window on one.
pub trait BoundedBuf: Sized {
    /// The buffer and the part of it that operations may touch.
    spec fn window(&self) -> Window;

    /// The underlying buffer.
    fn get_buf(&self) -> (r: &Buffer)
        ensures
            r@ == self.window().buf,
    ;

    /// The address at which the window begins.
    fn stable_ptr(&self) -> (r: usize)
        requires
            self.window().wf(),
            self.window().buf.parts.len() == 1,
        ensures
            r == self.window().addr(),
    ;

    /// The number of bytes in the window that are in use.
    fn bytes_init(&self) -> (r: usize)
        requires
            self.window().wf(),
        ensures
            r == self.window().used(),
    ;

    /// The number of bytes in the window.
    fn bytes_total(&self) -> (r: usize)
        requires
            self.window().wf(),
        ensures
            r == self.window().total(),
    ;

    /// Records that the kernel wrote `n` bytes to the window: the bytes in use end
    /// there then.
    fn set_init(&mut self, n: usize)
        requires
            old(self).window().wf(),
            n <= old(self).window().total(),
        ensures
            final(self).window() == old(self).window().with_len(n as nat),
            final(self).window().wf(),
            final(self).window().used() == n,
    ;
}

impl BoundedBuf for Buffer {
    open spec fn window(&self) -> Window {
        Window { buf: self@, begin: 0, end: total_cap(self@.parts) }
    }

    fn get_buf(&self) -> (r: &Buffer) {
        self
    }

    fn stable_ptr(&self) -> (r: usize) {
        self.part(0).addr
    }

    fn bytes_init(&self) -> (r: usize) {
        proof {
            lemma_len_within_cap(self@.parts);
        }
        Buffer::bytes_init(self)
    }

    fn bytes_total(&self) -> (r: usize) {
        Buffer::bytes_total(self)
    }

    fn set_init(&mut self, n: usize) {
        Buffer::set_init(self, n);
    }
}

} // verus!
