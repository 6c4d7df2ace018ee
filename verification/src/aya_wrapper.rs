//! Thin wrappers that let the eBPF map and program handles be replaced by
//! other implementations (for instance in tests).
use vstd::prelude::*;

verus! {

/// A ring buffer from which entries can be read one at a time.
pub trait RingBufRef {
    /// Whether reading the entry `r` takes the ring buffer from `before` to
    /// `after`; each implementation says what its buffer does.
    spec fn next_step(before: &Self, after: &Self, r: Option<Vec<u8>>) -> bool;

    /// The next entry, if one is ready.
    fn next(&mut self) -> (r: Option<Vec<u8>>)
        ensures
            Self::next_step(old(self), final(self), r),
    ;

    /// The file descriptor of the buffer, as each implementation has it.
    spec fn spec_raw_fd(&self) -> i32;

    /// The file descriptor of the buffer, for waiting until it is readable.
    fn as_raw_fd(&self) -> (fd: i32)
        ensures
            fd == self.spec_raw_fd(),
    ;
}

/// A ring buffer held by mutable reference.
pub trait RingBufMut: RingBufRef {

}

/// A ring buffer that is owned.
pub trait RingBufOwned: RingBufMut {

}

/// A ring buffer handle wrapping an implementation `I`.
#[derive(Debug)]
pub struct RingBuf<I>(I);

impl<I> RingBuf<I> {
    /// The wrapped implementation.
    pub closed spec fn inner(&self) -> I {
        self.0
    }

    pub fn new(inner: I) -> (rb: Self)
        ensures
            rb.inner() == inner,
    {
        Self(inner)
    }
}

impl<I: RingBufRef> RingBufRef for RingBuf<I> {
    /// The handle reads exactly what the wrapped buffer reads, and changes
    /// as the wrapped buffer does.
    open spec fn next_step(before: &Self, after: &Self, r: Option<Vec<u8>>) -> bool {
        I::next_step(&before.inner(), &after.inner(), r)
    }

    fn next(&mut self) -> (r: Option<Vec<u8>>) {
        self.0.next()
    }

    /// The handle has the file descriptor of the wrapped buffer.
    open spec fn spec_raw_fd(&self) -> i32 {
        self.inner().spec_raw_fd()
    }

    fn as_raw_fd(&self) -> (fd: i32) {
        self.0.as_raw_fd()
    }
}

impl<I: RingBufMut> RingBufMut for RingBuf<I> {

}

impl<I: RingBufOwned> RingBufOwned for RingBuf<I> {

}

/// An XDP program that is owned.
pub trait XdpOwned {

}

/// An XDP program handle wrapping an implementation `I`.
pub struct Xdp<I>(I);

impl<I> Xdp<I> {
    /// The wrapped implementation.
    pub closed spec fn inner(&self) -> I {
        self.0
    }

    pub fn new(inner: I) -> (xdp: Self)
        ensures
            xdp.inner() == inner,
    {
        Self(inner)
    }
}

impl<I: XdpOwned> XdpOwned for Xdp<I> {

}

/// Adapter around a borrowed or owned program of the eBPF loader.
pub struct Wrapper<T>(T);

impl<T> Wrapper<T> {
    /// The wrapped program.
    pub closed spec fn inner(&self) -> T {
        self.0
    }

    pub fn new(inner: T) -> (w: Self)
        ensures
            w.inner() == inner,
    {
        Self(inner)
    }
}

} // verus!
