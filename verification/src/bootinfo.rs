//! Boot information: the firmware memory map and the initrd image.
//!
//! The loader hands the kernel a list of memory regions and the initrd
//! bytes; here they are plain values that the allocator and the initrd
//! lookup read.

use vstd::prelude::*;

verus! {

#[derive(Clone, Copy, Debug, PartialEq, Eq, Structural)]
pub struct MemoryMapEntry {
    pub base_addr: u64,
    pub length: u64,
    pub region_type: u32,
    pub attributes: u32,
}

#[derive(Clone, Copy, Debug, PartialEq, Eq, Structural)]
pub enum MemoryRegionKind {
    Usable,
    Reserved,
    AcpiReclaimable,
    AcpiNvs,
    BadMemory,
    Unknown(u32),
}

pub open spec fn spec_kind(region_type: u32) -> MemoryRegionKind {
    if region_type == 1 {
        MemoryRegionKind::Usable
    } else if region_type == 2 {
        MemoryRegionKind::Reserved
    } else if region_type == 3 {
        MemoryRegionKind::AcpiReclaimable
    } else if region_type == 4 {
        MemoryRegionKind::AcpiNvs
    } else if region_type == 5 {
        MemoryRegionKind::BadMemory
    } else {
        MemoryRegionKind::Unknown(region_type)
    }
}

impl MemoryRegionKind {
    /// A human-readable name for the region kind.
    pub fn as_str(self) -> (r: &'static str)
        ensures
            r@ == match self {
                MemoryRegionKind::Usable => "Usable"@,
                MemoryRegionKind::Reserved => "Reserved"@,
                MemoryRegionKind::AcpiReclaimable => "ACPI Reclaimable"@,
                MemoryRegionKind::AcpiNvs => "ACPI NVS"@,
                MemoryRegionKind::BadMemory => "Bad Memory"@,
                MemoryRegionKind::Unknown(_) => "Unknown"@,
            },
    {
        match self {
            MemoryRegionKind::Usable => "Usable",
            MemoryRegionKind::Reserved => "Reserved",
            MemoryRegionKind::AcpiReclaimable => "ACPI Reclaimable",
            MemoryRegionKind::AcpiNvs => "ACPI NVS",
            MemoryRegionKind::BadMemory => "Bad Memory",
            MemoryRegionKind::Unknown(_) => "Unknown",
        }
    }
}

impl MemoryMapEntry {
    pub fn kind(&self) -> (r: MemoryRegionKind)
        ensures
            r == spec_kind(self.region_type),
    {
        if self.region_type == 1 {
            MemoryRegionKind::Usable
        } else if self.region_type == 2 {
            MemoryRegionKind::Reserved
        } else if self.region_type == 3 {
            MemoryRegionKind::AcpiReclaimable
        } else if self.region_type == 4 {
            MemoryRegionKind::AcpiNvs
        } else if self.region_type == 5 {
            MemoryRegionKind::BadMemory
        } else {
            MemoryRegionKind::Unknown(self.region_type)
        }
    }

    pub fn is_usable(&self) -> (r: bool)
        ensures
            r == (self.region_type == 1),
    {
        self.region_type == 1
    }
}

/// What the loader passes to the kernel entry point.
pub struct BootInfo {
    pub entries: Vec<MemoryMapEntry>,
    pub initrd: Vec<u8>,
}

/// A cursor over the memory map entries.
pub struct MemoryMapIter<'a> {
    pub entries: &'a Vec<MemoryMapEntry>,
    pub index: usize,
}

impl BootInfo {
    pub fn new(entries: Vec<MemoryMapEntry>, initrd: Vec<u8>) -> (r: BootInfo)
        ensures
            r.entries == entries,
            r.initrd == initrd,
    {
        BootInfo { entries, initrd }
    }

    /// Walk the memory map from the start.
    pub fn memory_map(&self) -> (r: MemoryMapIter<'_>)
        ensures
            r.entries@ == self.entries@,
            r.index == 0,
    {
        MemoryMapIter { entries: &self.entries, index: 0 }
    }
}

impl<'a> MemoryMapIter<'a> {
    /// The next entry, or `None` past the end.
    pub fn next(&mut self) -> (r: Option<MemoryMapEntry>)
        requires
            old(self).index <= old(self).entries@.len(),
        ensures
            final(self).entries@ == old(self).entries@,
            match r {
                Some(e) => {
                    &&& old(self).index < old(self).entries@.len()
                    &&& e == old(self).entries@[old(self).index as int]
                    &&& final(self).index == old(self).index + 1
                },
                None => {
                    &&& old(self).index == old(self).entries@.len()
                    &&& final(self).index == old(self).index
                },
            },
    {
        if self.index < self.entries.len() {
            let e: MemoryMapEntry = self.entries[self.index];
            self.index = self.index + 1;
            Some(e)
        } else {
            None
        }
    }
}

} // verus!
