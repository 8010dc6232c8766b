//! PCI configuration space: address formation and field extraction.
//!
//! The binary performs the two port accesses of a configuration read; the
//! address it writes to the address port and every field carved out of
//! the returned dwords are computed here. USB controllers are the class
//! 0x0C, subclass 0x03 functions.

use vstd::prelude::*;

verus! {

#[derive(Clone, Copy, Debug, PartialEq, Eq, Structural)]
pub struct PciAddress {
    pub bus: u8,
    pub device: u8,
    pub function: u8,
}

/// A decoded base address register.
#[derive(Clone, Copy, Debug, PartialEq, Eq, Structural)]
pub struct Bar {
    pub base: u64,
    pub is_memory: bool,
    pub is_64bit: bool,
    pub prefetchable: bool,
}

/// The CONFIG_ADDRESS word for a register: enable bit, bus, device,
/// function, and the dword-aligned offset.
pub fn config_address(addr: PciAddress, offset: u8) -> (r: u32)
    ensures
        r == 0x80000000u32 + (addr.bus as int) * 0x10000 + (addr.device as int) * 0x800 + (
        addr.function as int) * 0x100 + (offset - offset % 4),
{
    let aligned_offset: u32 = (offset - offset % 4) as u32;
    0x80000000u32 + (addr.bus as u32) * 0x10000 + (addr.device as u32) * 0x800 + (
    addr.function as u32) * 0x100 + aligned_offset
}

/// The 16-bit field of a config dword selected by bit 1 of the offset.
pub fn read_u16(value: u32, offset: u8) -> (r: u16)
    ensures
        r == if offset % 4 >= 2 {
            value / 0x10000
        } else {
            value % 0x10000
        },
{
    if offset % 4 >= 2 {
        (value / 0x10000) as u16
    } else {
        (value % 0x10000) as u16
    }
}

/// The byte of a config dword selected by the low two offset bits.
pub fn read_u8(value: u32, offset: u8) -> (r: u8)
    ensures
        r == (value / (if offset % 4 == 0 {
            0x1u32
        } else if offset % 4 == 1 {
            0x100u32
        } else if offset % 4 == 2 {
            0x10000u32
        } else {
            0x1000000u32
        })) % 256,
{
    let shift_div: u32 = if offset % 4 == 0 {
        1
    } else if offset % 4 == 1 {
        0x100
    } else if offset % 4 == 2 {
        0x10000
    } else {
        0x1000000
    };
    ((value / shift_div) % 256) as u8
}

/// Vendor id: the low half of the dword at offset 0.
pub fn vendor_id(reg0: u32) -> (r: u16)
    ensures
        r == reg0 % 0x10000,
{
    (reg0 % 0x10000) as u16
}

/// Device id: the high half of the dword at offset 0.
pub fn device_id(reg0: u32) -> (r: u16)
    ensures
        r == reg0 / 0x10000,
{
    (reg0 / 0x10000) as u16
}

/// Class code: byte 3 of the dword at offset 8.
pub fn class_code(reg8: u32) -> (r: u8)
    ensures
        r == reg8 / 0x1000000,
{
    (reg8 / 0x1000000) as u8
}

/// Subclass: byte 2 of the dword at offset 8.
pub fn subclass(reg8: u32) -> (r: u8)
    ensures
        r == (reg8 / 0x10000) % 256,
{
    ((reg8 / 0x10000) % 256) as u8
}

/// Programming interface: byte 1 of the dword at offset 8.
pub fn prog_if(reg8: u32) -> (r: u8)
    ensures
        r == (reg8 / 0x100) % 256,
{
    ((reg8 / 0x100) % 256) as u8
}

/// Header type: byte 2 of the dword at offset 0x0C.
pub fn header_type(reg_c: u32) -> (r: u8)
    ensures
        r == (reg_c / 0x10000) % 256,
{
    ((reg_c / 0x10000) % 256) as u8
}

/// A function is present when its vendor id is not all ones.
pub fn has_function(reg0: u32) -> (r: bool)
    ensures
        r == (reg0 % 0x10000 != 0xFFFF),
{
    let vendor: u16 = vendor_id(reg0);
    vendor != 0xFFFF
}

/// A function does multi-function duty when header-type bit 7 is set.
pub fn is_multifunction(header: u8) -> (r: bool)
    ensures
        r == (header >= 0x80),
{
    header >= 0x80
}

/// Decode a base address register from its dword (and, for 64-bit memory
/// BARs, the following dword). `None` for an index past the six BARs or
/// a register that reads back as zero.
pub fn bar(index: u8, value: u32, high: u32) -> (r: Option<Bar>)
    ensures
        match r {
            Some(b) => {
                &&& index < 6
                &&& value != 0
                &&& if value % 2 == 1 {
                    &&& !b.is_memory
                    &&& !b.is_64bit
                    &&& !b.prefetchable
                    &&& b.base == value - value % 4
                } else {
                    &&& b.is_memory
                    &&& b.is_64bit == ((value / 2) % 4 == 2)
                    &&& b.prefetchable == ((value / 8) % 2 == 1)
                    &&& b.base == (value - value % 16) + if (value / 2) % 4 == 2 {
                        (high as int) * 0x100000000
                    } else {
                        0int
                    }
                }
            },
            None => index >= 6 || value == 0,
        },
{
    if index >= 6 {
        return None;
    }
    if value == 0 {
        return None;
    }
    if value % 2 == 1 {
        // An I/O space BAR: the low two bits are flags.
        let base: u64 = (value - value % 4) as u64;
        return Some(Bar { base, is_memory: false, is_64bit: false, prefetchable: false });
    }
    let bar_type: u32 = (value / 2) % 4;
    let prefetchable: bool = (value / 8) % 2 == 1;
    let low: u64 = (value - value % 16) as u64;
    let is_64bit: bool = bar_type == 2;
    let base: u64 = if is_64bit {
        low + (high as u64) * 0x100000000
    } else {
        low
    };
    Some(Bar { base, is_memory: true, is_64bit, prefetchable })
}

/// One discovered function with the class fields the USB scan reads.
#[derive(Clone, Copy, Debug, PartialEq, Eq, Structural)]
pub struct PciFunctionInfo {
    pub addr: PciAddress,
    pub class: u8,
    pub subclass: u8,
    pub prog_if: u8,
}

/// The addresses of the USB controllers among the scanned functions:
/// class 0x0C, subclass 0x03, in scan order.
pub open spec fn spec_usb_controllers(s: Seq<PciFunctionInfo>) -> Seq<PciAddress>
    decreases s.len(),
{
    if s.len() == 0 {
        Seq::empty()
    } else {
        let rest = spec_usb_controllers(s.drop_last());
        if s.last().class == 0x0C && s.last().subclass == 0x03 {
            rest.push(s.last().addr)
        } else {
            rest
        }
    }
}

/// Filter a scan for USB controllers.
pub fn find_usb_controllers(functions: &Vec<PciFunctionInfo>) -> (r: Vec<PciAddress>)
    ensures
        r@ == spec_usb_controllers(functions@),
{
    let n: usize = functions.len();
    let mut out: Vec<PciAddress> = Vec::new();
    let mut i: usize = 0;
    while i < n
        invariant
            i <= n,
            n == functions@.len(),
            out@ == spec_usb_controllers(functions@.subrange(0, i as int)),
        decreases n - i,
    {
        let f: PciFunctionInfo = functions[i];
        if f.class == 0x0C && f.subclass == 0x03 {
            out.push(f.addr);
        }
        proof {
            assert(functions@.subrange(0, i + 1).drop_last() =~= functions@.subrange(
                0,
                i as int,
            ));
            assert(functions@.subrange(0, i + 1).last() == functions@[i as int]);
        }
        i = i + 1;
    }
    proof {
        assert(functions@.subrange(0, n as int) =~= functions@);
    }
    out
}

} // verus!
