//! Interest flags of an I/O request and the readiness kinds handed to epoll.

use vstd::prelude::*;

verus! {

/// The request wants to read.
pub const FLAG_READ: u32 = 0x1;

/// The request wants to write.
pub const FLAG_WRITE: u32 = 0x2;

/// Readable.
pub const EPOLLIN: u32 = 0x001;

/// Writable.
pub const EPOLLOUT: u32 = 0x004;

/// Deliver at most one notification per registration.
pub const EPOLLONESHOT: u32 = 0x4000_0000;

/// Edge-triggered delivery.
pub const EPOLLET: u32 = 0x8000_0000;

/// The set of directions an I/O request is interested in.
#[derive(Clone, Copy, Debug, PartialEq, Eq, Structural)]
pub struct EventFlags {
    pub bits: u32,
}

/// The event mask of one epoll registration.
#[derive(Clone, Copy, Debug, PartialEq, Eq, Structural)]
pub struct EpollEventKind {
    pub bits: u32,
}

impl EventFlags {
    /// Whether every flag of `other` is set in `self`.
    pub open spec fn has(self, other: EventFlags) -> bool {
        self.bits & other.bits == other.bits
    }

    pub fn empty() -> (r: EventFlags)
        ensures
            r.bits == 0,
    {
        EventFlags { bits: 0 }
    }

    pub fn read() -> (r: EventFlags)
        ensures
            r.bits == FLAG_READ,
    {
        EventFlags { bits: FLAG_READ }
    }

    pub fn write() -> (r: EventFlags)
        ensures
            r.bits == FLAG_WRITE,
    {
        EventFlags { bits: FLAG_WRITE }
    }

    pub fn union(self, other: EventFlags) -> (r: EventFlags)
        ensures
            r.bits == self.bits | other.bits,
    {
        EventFlags { bits: self.bits | other.bits }
    }

    pub fn contains(self, other: EventFlags) -> (r: bool)
        ensures
            r == self.has(other),
    {
        self.bits & other.bits == other.bits
    }
}

impl EpollEventKind {
    /// Whether every bit of `mask` is set.
    pub open spec fn has(self, mask: u32) -> bool {
        self.bits & mask == mask
    }

    pub fn empty() -> (r: EpollEventKind)
        ensures
            r.bits == 0,
    {
        EpollEventKind { bits: 0 }
    }

    pub fn contains(self, mask: u32) -> (r: bool)
        ensures
            r == self.has(mask),
    {
        self.bits & mask == mask
    }
}

/// The epoll mask of a registration with the given interest bits: always
/// one-shot and edge-triggered, readable when reading is wanted, writable
/// when writing is wanted.
pub open spec fn epoll_kind_bits(interest: u32) -> u32 {
    let base = EPOLLONESHOT | EPOLLET;
    let with_in = if interest & FLAG_READ == FLAG_READ {
        base | EPOLLIN
    } else {
        base
    };
    if interest & FLAG_WRITE == FLAG_WRITE {
        with_in | EPOLLOUT
    } else {
        with_in
    }
}

/// Converts the interest of a request into the mask of its registration.
pub fn interest_to_epoll_kind(interest: EventFlags) -> (kind: EpollEventKind)
    ensures
        kind.bits == epoll_kind_bits(interest.bits),
{
    let mut bits: u32 = EPOLLONESHOT | EPOLLET;
    if interest.contains(EventFlags::read()) {
        bits = bits | EPOLLIN;
    }
    if interest.contains(EventFlags::write()) {
        bits = bits | EPOLLOUT;
    }
    EpollEventKind { bits }
}

/// Every registration mask is one-shot and edge-triggered; it asks for
/// readability exactly when the interest holds the read flag and for
/// writability exactly when it holds the write flag; it holds no other bit.
pub proof fn lemma_epoll_kind_bits(interest: u32)
    ensures
        epoll_kind_bits(interest) & EPOLLONESHOT == EPOLLONESHOT,
        epoll_kind_bits(interest) & EPOLLET == EPOLLET,
        (epoll_kind_bits(interest) & EPOLLIN == EPOLLIN) <==> (interest & FLAG_READ == FLAG_READ),
        (epoll_kind_bits(interest) & EPOLLOUT == EPOLLOUT) <==> (interest & FLAG_WRITE
            == FLAG_WRITE),
        epoll_kind_bits(interest) & !(EPOLLONESHOT | EPOLLET | EPOLLIN | EPOLLOUT) == 0,
{
    let r = interest & FLAG_READ == FLAG_READ;
    let w = interest & FLAG_WRITE == FLAG_WRITE;
    let k = epoll_kind_bits(interest);
    assert(k == (0x4000_0000u32 | 0x8000_0000u32) | (if r { 1u32 } else { 0u32 }) | (if w {
        4u32
    } else {
        0u32
    })) by (bit_vector)
        requires
            k == (if w {
                (if r {
                    (0x4000_0000u32 | 0x8000_0000u32) | 1u32
                } else {
                    0x4000_0000u32 | 0x8000_0000u32
                }) | 4u32
            } else {
                (if r {
                    (0x4000_0000u32 | 0x8000_0000u32) | 1u32
                } else {
                    0x4000_0000u32 | 0x8000_0000u32
                })
            }),
    ;
    assert(k & 0x4000_0000u32 == 0x4000_0000u32 && k & 0x8000_0000u32 == 0x8000_0000u32 && ((k
        & 1u32 == 1u32) <==> r) && ((k & 4u32 == 4u32) <==> w) && k & !(0x4000_0000u32
        | 0x8000_0000u32 | 1u32 | 4u32) == 0) by (bit_vector)
        requires
            k == (0x4000_0000u32 | 0x8000_0000u32) | (if r { 1u32 } else { 0u32 }) | (if w {
                4u32
            } else {
                0u32
            }),
    ;
}

} // verus!
