//! Address arithmetic and status decisions of the flash driver.
//!
//! The driver itself talks to memory-mapped registers; what it computes
//! between two register accesses lives here.
use vstd::prelude::*;

verus! {

/// Address of the first byte of flash memory.
pub const FLASH_BASE: usize = 0x0800_0000;

/// Size of one flash page in bytes.
pub const PAGE_SIZE: usize = 0x800;

/// Number of flash pages.
pub const PAGES: usize = 128;

/// A failed flash operation: the low 16 bits of the status register at the
/// time of the failure.
#[derive(Debug, Clone)]
pub struct FlashError {
    status: u16,
}

impl FlashError {
    /// The status bits that the error holds.
    pub closed spec fn status_bits(&self) -> u16 {
        self.status
    }

    /// An error that holds `status`.
    pub fn new(status: u16) -> (e: FlashError)
        ensures
            e.status_bits() == status,
    {
        FlashError { status }
    }

    /// The low 16 bits of the status register.
    pub fn status(&self) -> (s: u16)
        ensures
            s == self.status_bits(),
    {
        self.status
    }
}

/// The low 16 bits of a register value.
pub open spec fn low16(bits: u32) -> u16 {
    (bits % 0x1_0000) as u16
}

proof fn lemma_low16(bits: u32)
    by (bit_vector)
    ensures
        bits as u16 == (bits % 0x1_0000u32) as u16,
{
}

/// The address of byte `offset` of page `sector`.
pub fn get_address(sector: u8, offset: usize) -> (address: usize)
    requires
        sector < 128,
        0x0800_0000 + sector * 0x800 + offset <= usize::MAX,
    ensures
        address == 0x0800_0000 + sector * 0x800 + offset,
{
    FLASH_BASE + (sector as usize) * PAGE_SIZE + offset
}

/// Number of 32-bit words that an erase of `size` bytes walks over: none
/// where `size` does not fit a signed machine word.
pub fn erase_words(size: usize) -> (n: usize)
    ensures
        n == if size <= isize::MAX {
            size / 4
        } else {
            0
        },
{
    if size <= isize::MAX as usize {
        size / 4
    } else {
        0
    }
}

/// Number of 16-bit half-words that a write of `size` bytes programs.
pub fn write_halfwords(size: usize) -> (n: usize)
    requires
        size % 4 == 0,
    ensures
        n == if size <= isize::MAX {
            size / 2
        } else {
            0
        },
{
    if size <= isize::MAX as usize {
        size / 2
    } else {
        0
    }
}

/// Outcome of erasing one word, from the status register read after it:
/// a write-protection error fails the erase with the status bits.
pub fn erase_check(bits: u32, wrprterr: bool) -> (r: Result<(), FlashError>)
    ensures
        wrprterr <==> r is Err,
        r is Err ==> r->Err_0.status_bits() == low16(bits),
{
    if wrprterr {
        proof {
            lemma_low16(bits);
        }
        Err(FlashError::new(bits as u16))
    } else {
        Ok(())
    }
}

/// Outcome of programming one half-word, from the status register read
/// after it: a write-protection or programming error fails the write with
/// the status bits.
pub fn write_check(bits: u32, wrprterr: bool, pgerr: bool) -> (r: Result<(), FlashError>)
    ensures
        (wrprterr || pgerr) <==> r is Err,
        r is Err ==> r->Err_0.status_bits() == low16(bits),
{
    if wrprterr || pgerr {
        proof {
            lemma_low16(bits);
        }
        Err(FlashError::new(bits as u16))
    } else {
        Ok(())
    }
}

} // verus!
