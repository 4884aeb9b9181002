//! The guest's memory page as the host sees it: allocations in one page of
//! 64 KiB, and the 32-bit numbers that carry an allocation or a status code
//! across the guest-call boundary.

use crate::get_links::HcApiReturnCode;
use vstd::prelude::*;

verus! {

/// The value of the upper half of a 32-bit number that stands for `code`.
pub open spec fn rank_of(code: HcApiReturnCode) -> int {
    match code {
        HcApiReturnCode::Success => 0,
        HcApiReturnCode::Error => 1,
        HcApiReturnCode::ErrorSerdeJson => 2,
        HcApiReturnCode::ErrorPageOverflow => 3,
        HcApiReturnCode::ErrorActionResult => 4,
    }
}

/// The status code that the rank `rank` stands for; the general error for a
/// rank that no code has.
pub open spec fn code_of_rank(rank: int) -> HcApiReturnCode {
    if rank == 0 {
        HcApiReturnCode::Success
    } else if rank == 2 {
        HcApiReturnCode::ErrorSerdeJson
    } else if rank == 3 {
        HcApiReturnCode::ErrorPageOverflow
    } else if rank == 4 {
        HcApiReturnCode::ErrorActionResult
    } else {
        HcApiReturnCode::Error
    }
}

/// A region of the guest's memory page, as plain numbers.
pub struct AllocationView {
    pub offset: int,
    pub length: int,
}

impl AllocationView {
    /// Whether the region is not empty and ends within the page.
    pub open spec fn fits(self) -> bool {
        0 <= self.offset && 0 < self.length && self.offset + self.length <= 0xffff
    }

    /// The number that carries the region across the boundary: the offset
    /// in the upper half of 32 bits, the length in the lower half.
    pub open spec fn encoded(self) -> int {
        self.offset * 0x1_0000 + self.length
    }
}

/// What the number `encoded` carries across the boundary: a region where
/// its lower half is not zero and the region fits the page, an overflow
/// where it does not fit, and the status code of its upper half where the
/// lower half is zero.
pub open spec fn decoded(encoded: u32) -> Result<AllocationView, HcApiReturnCode> {
    let offset = encoded as int / 0x1_0000;
    let length = encoded as int % 0x1_0000;
    if length == 0 {
        Err(code_of_rank(offset))
    } else if offset + length > 0xffff {
        Err(HcApiReturnCode::ErrorPageOverflow)
    } else {
        Ok(AllocationView { offset, length })
    }
}

/// A region of the guest's memory page that is not empty and ends within
/// the page.
#[derive(Clone, Copy, Debug, PartialEq, Eq, Structural)]
pub struct SinglePageAllocation {
    offset: u16,
    length: u16,
}

impl View for SinglePageAllocation {
    type V = AllocationView;

    closed spec fn view(&self) -> AllocationView {
        AllocationView { offset: self.offset as int, length: self.length as int }
    }
}

impl SinglePageAllocation {
    /// The region of an allocation fits the page, at all times.
    #[verifier::type_invariant]
    pub open spec fn fits(&self) -> bool {
        self@.fits()
    }

    /// The allocation of `length` bytes at `offset`. An empty region gives
    /// the general error, one that ends beyond the page an overflow.
    pub fn new(offset: u16, length: u16) -> (allocation: Result<
        SinglePageAllocation,
        HcApiReturnCode,
    >)
        ensures
            match allocation {
                Ok(a) => a@.fits() && a@ == (AllocationView {
                    offset: offset as int,
                    length: length as int,
                }),
                Err(code) => code == (if length == 0 {
                    HcApiReturnCode::Error
                } else {
                    HcApiReturnCode::ErrorPageOverflow
                }) && !(AllocationView { offset: offset as int, length: length as int }).fits(),
            },
    {
        if length == 0 {
            Err(HcApiReturnCode::Error)
        } else if offset as u32 + length as u32 > 0xffff {
            Err(HcApiReturnCode::ErrorPageOverflow)
        } else {
            Ok(SinglePageAllocation { offset, length })
        }
    }

    /// Where the region starts.
    pub fn offset(&self) -> (offset: u16)
        ensures
            offset == self@.offset,
    {
        self.offset
    }

    /// How many bytes the region holds.
    pub fn length(&self) -> (length: u16)
        ensures
            length == self@.length,
    {
        self.length
    }

    /// The number that carries the allocation across the boundary. Its
    /// lower half is not zero, so it is the number of no status code.
    pub fn encode(&self) -> (encoded: u32)
        ensures
            self@.fits(),
            encoded == self@.encoded(),
            encoded % 0x1_0000 != 0,
            decoded(encoded) == Ok::<AllocationView, HcApiReturnCode>(self@),
    {
        proof {
            use_type_invariant(self);
        }
        let encoded = self.offset as u32 * 0x1_0000 + self.length as u32;
        assert(encoded as int / 0x1_0000 == self.offset && encoded as int % 0x1_0000
            == self.length) by (nonlinear_arith)
            requires
                encoded == self.offset * 0x1_0000 + self.length,
                0 <= self.length < 0x1_0000,
        ;
        encoded
    }

    /// What the number `encoded` carries across the boundary.
    pub fn decode(encoded: u32) -> (carried: Result<SinglePageAllocation, HcApiReturnCode>)
        ensures
            match carried {
                Ok(a) => decoded(encoded) == Ok::<AllocationView, HcApiReturnCode>(a@),
                Err(code) => decoded(encoded) == Err::<AllocationView, HcApiReturnCode>(code),
            },
    {
        let offset = encoded / 0x1_0000;
        let length = encoded % 0x1_0000;
        if length == 0 {
            Err(code_from_rank(offset))
        } else if offset + length > 0xffff {
            Err(HcApiReturnCode::ErrorPageOverflow)
        } else {
            Ok(SinglePageAllocation { offset: offset as u16, length: length as u16 })
        }
    }
}

/// The status code that the rank `rank` stands for.
pub fn code_from_rank(rank: u32) -> (code: HcApiReturnCode)
    ensures
        code == code_of_rank(rank as int),
{
    if rank == 0 {
        HcApiReturnCode::Success
    } else if rank == 2 {
        HcApiReturnCode::ErrorSerdeJson
    } else if rank == 3 {
        HcApiReturnCode::ErrorPageOverflow
    } else if rank == 4 {
        HcApiReturnCode::ErrorActionResult
    } else {
        HcApiReturnCode::Error
    }
}

/// The number of a status code stands for that code and for no allocation.
pub proof fn lemma_code_number(code: HcApiReturnCode)
    ensures
        code.number() == rank_of(code) * 0x1_0000,
        code.number() % 0x1_0000 == 0,
        decoded(code.number() as u32) == Err::<AllocationView, HcApiReturnCode>(code),
{
}

/// The stack of allocations in the guest's memory page: what lies below
/// `top` is taken.
#[derive(Clone, Copy, Debug, PartialEq, Eq, Structural)]
pub struct SinglePageStack {
    top: u16,
}

impl SinglePageStack {
    /// How many bytes of the page are taken.
    pub closed spec fn taken(&self) -> int {
        self.top as int
    }

    /// The stack of an untouched page.
    pub fn new() -> (stack: SinglePageStack)
        ensures
            stack.taken() == 0,
    {
        SinglePageStack { top: 0 }
    }

    /// How many bytes of the page are taken.
    pub fn top(&self) -> (top: u16)
        ensures
            top == self.taken(),
    {
        self.top
    }

    /// Takes room for a text of `length` bytes: what `allocate` gives where
    /// the length fits in sixteen bits, an overflow where it does not.
    pub fn allocate_bytes(&mut self, length: usize) -> (allocation: Result<
        SinglePageAllocation,
        HcApiReturnCode,
    >)
        ensures
            allocation is Ok <==> 0 < length && old(self).taken() + length <= 0xffff,
            allocation matches Ok(a) ==> a@ == (AllocationView {
                offset: old(self).taken(),
                length: length as int,
            }) && final(self).taken() == old(self).taken() + length,
            allocation matches Err(code) ==> final(self).taken() == old(self).taken() && code
                == (if length == 0 {
                HcApiReturnCode::Error
            } else {
                HcApiReturnCode::ErrorPageOverflow
            }),
    {
        if length > 0xffff {
            Err(HcApiReturnCode::ErrorPageOverflow)
        } else {
            self.allocate(length as u16)
        }
    }

    /// Takes the next `length` bytes of the page. Nothing is taken where
    /// `length` is zero, which gives the general error, or where the page
    /// has not that many bytes left, which gives an overflow.
    pub fn allocate(&mut self, length: u16) -> (allocation: Result<
        SinglePageAllocation,
        HcApiReturnCode,
    >)
        ensures
            match allocation {
                Ok(a) => a@.fits() && a@ == (AllocationView {
                    offset: old(self).taken(),
                    length: length as int,
                }) && final(self).taken() == old(self).taken() + length,
                Err(code) => code == (if length == 0 {
                    HcApiReturnCode::Error
                } else {
                    HcApiReturnCode::ErrorPageOverflow
                }) && final(self).taken() == old(self).taken(),
            },
            allocation is Ok <==> length > 0 && old(self).taken() + length <= 0xffff,
    {
        match SinglePageAllocation::new(self.top, length) {
            Ok(allocation) => {
                self.top = self.top + length;
                Ok(allocation)
            },
            Err(code) => Err(code),
        }
    }
}

} // verus!
