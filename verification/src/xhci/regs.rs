//! The xHCI register map: addresses and field extraction.
//!
//! Capability, operational, runtime, interrupter, doorbell and port
//! registers are located by fixed offsets from values in the capability
//! header. The binary performs the 32-bit volatile accesses at the
//! addresses computed here; 64-bit registers are written low word first.

use vstd::prelude::*;

verus! {

/// The capability header, read once at discovery.
#[derive(Debug, Clone, Copy)]
pub struct XhciInfo {
    pub base: u64,
    pub cap_length: u8,
    pub hci_version: u16,
    pub hcsparams1: u32,
    pub hcsparams2: u32,
    pub hcsparams3: u32,
    pub hccparams1: u32,
    pub dboff: u32,
    pub rtsoff: u32,
}

impl XhciInfo {
    /// Device slots the controller supports: bits 0..8 of HCSPARAMS1.
    pub fn max_slots(&self) -> (r: u8)
        ensures
            r == self.hcsparams1 % 256,
    {
        (self.hcsparams1 % 256) as u8
    }

    /// Root hub ports: bits 24..32 of HCSPARAMS1.
    pub fn max_ports(&self) -> (r: u8)
        ensures
            r == (self.hcsparams1 / 0x1000000) % 256,
    {
        ((self.hcsparams1 / 0x1000000) % 256) as u8
    }

    /// Context entry size: 64 bytes when HCCPARAMS1 bit 2 is set, else 32.
    pub fn context_size(&self) -> (r: u16)
        ensures
            r == if (self.hccparams1 / 4) % 2 == 1 {
                64int
            } else {
                32int
            },
    {
        if (self.hccparams1 / 4) % 2 == 1 {
            64
        } else {
            32
        }
    }
}

/// Decode the seven capability dwords read at `base`; a zero base means no
/// controller is mapped there.
pub fn inspect(base: u64, caps: &Vec<u32>) -> (r: Option<XhciInfo>)
    requires
        caps@.len() >= 7,
    ensures
        match r {
            Some(info) => {
                &&& base != 0
                &&& info.base == base
                &&& info.cap_length == caps@[0] % 256
                &&& info.hci_version == (caps@[0] / 0x10000) % 0x10000
                &&& info.hcsparams1 == caps@[1]
                &&& info.hcsparams2 == caps@[2]
                &&& info.hcsparams3 == caps@[3]
                &&& info.hccparams1 == caps@[4]
                &&& info.dboff == caps@[5]
                &&& info.rtsoff == caps@[6]
            },
            None => base == 0,
        },
{
    if base == 0 {
        return None;
    }
    let cap: u32 = caps[0];
    Some(
        XhciInfo {
            base,
            cap_length: (cap % 256) as u8,
            hci_version: ((cap / 0x10000) % 0x10000) as u16,
            hcsparams1: caps[1],
            hcsparams2: caps[2],
            hcsparams3: caps[3],
            hccparams1: caps[4],
            dboff: caps[5],
            rtsoff: caps[6],
        },
    )
}

/// A discovered controller: the capability header plus its MMIO base.
pub struct Xhci {
    pub cap: XhciInfo,
    pub base: u64,
}

/// Register banks are named by the base address of their first register.
#[derive(Clone, Copy, Debug, PartialEq, Eq, Structural)]
pub struct OperationalRegs {
    pub base: u64,
}

#[derive(Clone, Copy, Debug, PartialEq, Eq, Structural)]
pub struct RuntimeRegs {
    pub base: u64,
}

#[derive(Clone, Copy, Debug, PartialEq, Eq, Structural)]
pub struct InterrupterRegs {
    pub base: u64,
}

#[derive(Clone, Copy, Debug, PartialEq, Eq, Structural)]
pub struct DoorbellRegs {
    pub base: u64,
}

#[derive(Clone, Copy, Debug, PartialEq, Eq, Structural)]
pub struct PortRegs {
    pub base: u64,
}

impl Xhci {
    /// `None` when the capability header names no mapped base.
    pub fn new(info: XhciInfo) -> (r: Option<Xhci>)
        ensures
            match r {
                Some(c) => info.base != 0 && c.base == info.base && c.cap == info,
                None => info.base == 0,
            },
    {
        if info.base == 0 {
            None
        } else {
            Some(Xhci { cap: info, base: info.base })
        }
    }

    pub fn info(&self) -> (r: &XhciInfo)
        ensures
            *r == self.cap,
    {
        &self.cap
    }

    /// The operational bank starts `cap_length` bytes past the base.
    pub fn operational(&self) -> (r: OperationalRegs)
        requires
            self.base + self.cap.cap_length <= u64::MAX,
        ensures
            r.base == self.base + self.cap.cap_length,
    {
        OperationalRegs { base: self.base + (self.cap.cap_length as u64) }
    }

    /// The runtime bank starts at RTSOFF past the base.
    pub fn runtime(&self) -> (r: RuntimeRegs)
        requires
            self.base + self.cap.rtsoff <= u64::MAX,
        ensures
            r.base == self.base + self.cap.rtsoff,
    {
        RuntimeRegs { base: self.base + (self.cap.rtsoff as u64) }
    }

    /// The doorbell array starts at DBOFF past the base.
    pub fn doorbells(&self) -> (r: DoorbellRegs)
        requires
            self.base + self.cap.dboff <= u64::MAX,
        ensures
            r.base == self.base + self.cap.dboff,
    {
        DoorbellRegs { base: self.base + (self.cap.dboff as u64) }
    }
}

impl OperationalRegs {
    pub fn usbcmd_addr(&self) -> (r: u64)
        ensures
            r == self.base,
    {
        self.base
    }

    pub fn usbsts_addr(&self) -> (r: u64)
        requires
            self.base + 4 <= u64::MAX,
        ensures
            r == self.base + 4,
    {
        self.base + 4
    }

    pub fn crcr_addr(&self) -> (r: u64)
        requires
            self.base + 0x18 <= u64::MAX,
        ensures
            r == self.base + 0x18,
    {
        self.base + 0x18
    }

    pub fn dcbaap_addr(&self) -> (r: u64)
        requires
            self.base + 0x30 <= u64::MAX,
        ensures
            r == self.base + 0x30,
    {
        self.base + 0x30
    }

    pub fn config_addr(&self) -> (r: u64)
        requires
            self.base + 0x38 <= u64::MAX,
        ensures
            r == self.base + 0x38,
    {
        self.base + 0x38
    }

    /// Port register sets sit every 16 bytes from offset 0x400.
    pub fn port(&self, index: usize) -> (r: PortRegs)
        requires
            self.base + 0x400 + index * 0x10 <= u64::MAX,
        ensures
            r.base == self.base + 0x400 + index * 0x10,
    {
        PortRegs { base: self.base + 0x400 + (index as u64) * 0x10 }
    }
}

impl RuntimeRegs {
    /// Interrupter register sets sit every 32 bytes from offset 0x20.
    pub fn interrupter_register_set(&self, index: usize) -> (r: InterrupterRegs)
        requires
            self.base + 0x20 + index * 32 <= u64::MAX,
        ensures
            r.base == self.base + 0x20 + index * 32,
    {
        InterrupterRegs { base: self.base + 0x20 + (index as u64) * 32 }
    }
}

impl InterrupterRegs {
    pub fn iman_addr(&self) -> (r: u64)
        ensures
            r == self.base,
    {
        self.base
    }

    pub fn imod_addr(&self) -> (r: u64)
        requires
            self.base + 4 <= u64::MAX,
        ensures
            r == self.base + 4,
    {
        self.base + 4
    }

    pub fn erstsz_addr(&self) -> (r: u64)
        requires
            self.base + 8 <= u64::MAX,
        ensures
            r == self.base + 8,
    {
        self.base + 8
    }

    pub fn erstba_addr(&self) -> (r: u64)
        requires
            self.base + 0x10 <= u64::MAX,
        ensures
            r == self.base + 0x10,
    {
        self.base + 0x10
    }

    pub fn erdp_addr(&self) -> (r: u64)
        requires
            self.base + 0x18 <= u64::MAX,
        ensures
            r == self.base + 0x18,
    {
        self.base + 0x18
    }
}

impl DoorbellRegs {
    /// Doorbell registers are 4 bytes each.
    pub fn doorbell_addr(&self, index: usize) -> (r: u64)
        requires
            self.base + index * 4 <= u64::MAX,
        ensures
            r == self.base + index * 4,
    {
        self.base + (index as u64) * 4
    }
}

impl PortRegs {
    /// PORTSC is the first register of a port set.
    pub fn sc_addr(&self) -> (r: u64)
        ensures
            r == self.base,
    {
        self.base
    }
}

/// Split a 64-bit register value into the low and high words, written in
/// that order.
pub fn split64(value: u64) -> (r: (u32, u32))
    ensures
        r.0 == value % 0x100000000,
        r.1 == value / 0x100000000,
        r.0 + r.1 * 0x100000000 == value,
{
    ((value % 0x100000000) as u32, (value / 0x100000000) as u32)
}

/// The command ring control register value: the ring base with the ring
/// cycle state bit set.
pub fn crcr_value(cmd_ring_phys: u64) -> (r: u64)
    ensures
        r == cmd_ring_phys - cmd_ring_phys % 16 + 1,
{
    (cmd_ring_phys - cmd_ring_phys % 16) + 1
}

/// The event ring dequeue pointer to write back after consuming: the
/// consumed entry's address with the event-handler-busy bit cleared by
/// setting bit 3.
pub fn erdp_value(event_ring_phys: u64, dequeue: usize) -> (r: u64)
    requires
        event_ring_phys % 16 == 0,
        event_ring_phys + dequeue * 16 + 8 <= u64::MAX,
    ensures
        r == event_ring_phys + dequeue * 16 + 8,
{
    event_ring_phys + (dequeue as u64) * 16 + 8
}

/// The first connected port among the sampled PORTSC values: connect
/// status is bit 0.
pub fn find_first_connected_port(portsc: &Vec<u32>) -> (r: Option<usize>)
    ensures
        match r {
            Some(i) => {
                &&& i < portsc@.len()
                &&& portsc@[i as int] % 2 == 1
                &&& forall|k: int| 0 <= k < i ==> portsc@[k] % 2 != 1
            },
            None => forall|k: int| 0 <= k < portsc@.len() ==> portsc@[k] % 2 != 1,
        },
{
    let n: usize = portsc.len();
    let mut i: usize = 0;
    while i < n
        invariant
            i <= n,
            n == portsc@.len(),
            forall|k: int| 0 <= k < i ==> portsc@[k] % 2 != 1,
        decreases n - i,
    {
        if portsc[i] % 2 == 1 {
            return Some(i);
        }
        i = i + 1;
    }
    None
}

/// Where a port-reset walk stands: about to assert the reset bit,
/// waiting for the controller to clear it, waiting for the port to come
/// up enabled, or done.
#[derive(Clone, Copy, Debug, PartialEq, Eq, Structural)]
pub enum PortResetStep {
    AssertReset,
    AwaitResetClear,
    AwaitEnabled,
    Enabled,
}

/// One step of the port-reset walk, given a fresh PORTSC sample: first
/// write PORTSC back with the reset bit set, then hold until the
/// controller clears that bit, then hold until the port reads enabled.
/// The returned value, when there is one, is what the binary writes to
/// PORTSC before sampling again; the spin counts bound the waits there.
pub fn port_reset_step(step: PortResetStep, sc: u32) -> (r: (PortResetStep, Option<u32>))
    ensures
        step == PortResetStep::AssertReset ==> r == (
            PortResetStep::AwaitResetClear,
            Some(
                (if (sc / 16) % 2 == 1 {
                    sc as int
                } else {
                    sc + 16
                }) as u32,
            ),
        ),
        step == PortResetStep::AwaitResetClear ==> r == (
            if (sc / 16) % 2 == 0 {
                PortResetStep::AwaitEnabled
            } else {
                PortResetStep::AwaitResetClear
            },
            None::<u32>,
        ),
        step == PortResetStep::AwaitEnabled ==> r == (
            if (sc / 2) % 2 == 1 {
                PortResetStep::Enabled
            } else {
                PortResetStep::AwaitEnabled
            },
            None::<u32>,
        ),
        step == PortResetStep::Enabled ==> r == (PortResetStep::Enabled, None::<u32>),
{
    match step {
        PortResetStep::AssertReset => (PortResetStep::AwaitResetClear, Some(port_reset_value(sc))),
        PortResetStep::AwaitResetClear => {
            if (sc / 16) % 2 == 0 {
                (PortResetStep::AwaitEnabled, None)
            } else {
                (PortResetStep::AwaitResetClear, None)
            }
        },
        PortResetStep::AwaitEnabled => {
            if (sc / 2) % 2 == 1 {
                (PortResetStep::Enabled, None)
            } else {
                (PortResetStep::AwaitEnabled, None)
            }
        },
        PortResetStep::Enabled => (PortResetStep::Enabled, None),
    }
}

/// Does the first connected port need a reset at all? It is already
/// usable when PORTSC reads enabled (bit 1).
pub fn port_needs_reset(sc: u32) -> (r: bool)
    ensures
        r == ((sc / 2) % 2 == 0),
{
    (sc / 2) % 2 == 0
}

/// PORTSC with the port-reset bit (bit 4) set, to start a reset.
pub fn port_reset_value(sc: u32) -> (r: u32)
    ensures
        r == if (sc / 16) % 2 == 1 {
            sc as int
        } else {
            sc + 16
        },
{
    if (sc / 16) % 2 == 1 {
        sc
    } else {
        sc + 16
    }
}

} // verus!
