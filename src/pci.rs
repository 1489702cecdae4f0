//! PCI configuration space: the address of a register, and the search for
//! a device among the identifiers read from every slot.

use vstd::prelude::*;

verus! {

/// Number of (bus, device, function) slots: 256 buses of 32 devices of 8
/// functions.
pub const PCI_SLOTS: usize = 65536;

/// The configuration-space address of register `offset` of `function` of
/// `device` on `bus`, with the enable bit set and the offset rounded down to
/// a multiple of four.
pub fn pci_config_address(bus: u8, device: u8, function: u8, offset: u8) -> (a: u32)
    ensures
        a == ((bus as u32) << 16u32) | ((device as u32) << 11u32) | ((function as u32) << 8u32)
            | ((offset as u32) & 0xFCu32) | 0x8000_0000u32,
        device < 32 && function < 8 ==> a == 0x8000_0000 + bus * 65536 + device * 2048 + function
            * 256 + (offset / 4) * 4,
{
    let a: u32 = ((bus as u32) << 16u32) | ((device as u32) << 11u32) | ((function as u32) << 8u32)
        | ((offset as u32) & 0xFCu32) | 0x8000_0000u32;
    proof {
        let (b, d, f, o) = (bus as u32, device as u32, function as u32, offset as u32);
        if device < 32 && function < 8 {
            assert(b < 256 && d < 32 && f < 8 && o < 256 ==> (b << 16u32) | (d << 11u32) | (f
                << 8u32) | (o & 0xFCu32) | 0x8000_0000u32 == 0x8000_0000u32 + b * 65536u32 + d
                * 2048u32 + f * 256u32 + (o / 4u32) * 4u32) by (bit_vector);
        }
    }
    a
}

/// The slot of `(bus, device, function)` in scan order: buses outermost,
/// functions innermost.
pub open spec fn slot(bus: int, device: int, function: int) -> int {
    bus * 256 + device * 8 + function
}

/// The identifier word a device answers with at register 0: its device id
/// above its vendor id.
pub open spec fn id_word(device_id: u16, vendor_id: u16) -> int {
    device_id * 65536 + vendor_id
}

/// Finds the first slot, in scan order, whose identifier word in `ids`
/// (indexed by slot) is that of `device_id` and `vendor_id`, and returns its
/// (bus, device, function); `(0xFF, 0xFF, 0xFF)` when there is none. Slots
/// past the end of `ids` are not scanned.
pub fn pci_find_device(device_id: u16, vendor_id: u16, ids: &Vec<u32>) -> (r: (u8, u8, u8))
    ensures
        r.1 < 32 ==> {
            &&& r.2 < 8
            &&& slot(r.0 as int, r.1 as int, r.2 as int) < ids@.len()
            &&& ids@[slot(r.0 as int, r.1 as int, r.2 as int)] == id_word(device_id, vendor_id)
            &&& forall|s: int|
                0 <= s < slot(r.0 as int, r.1 as int, r.2 as int) ==> #[trigger] ids@[s]
                    != id_word(device_id, vendor_id)
        },
        r.1 >= 32 ==> {
            &&& r == (0xFFu8, 0xFFu8, 0xFFu8)
            &&& forall|s: int|
                0 <= s < ids@.len() && s < PCI_SLOTS ==> #[trigger] ids@[s] != id_word(
                    device_id,
                    vendor_id,
                )
        },
{
    let high: u32 = (device_id as u32) << 16u32;
    proof {
        let d = device_id as u32;
        assert(d < 65536 ==> d << 16u32 == d * 65536u32) by (bit_vector);
    }
    let target: u32 = high + vendor_id as u32;
    let mut bus: u16 = 0;
    while bus < 256
        invariant
            bus <= 256,
            target == id_word(device_id, vendor_id),
            forall|s: int| 0 <= s < ids@.len() && s < bus * 256 ==> #[trigger] ids@[s] != target,
        decreases 256 - bus,
    {
        let mut device: u8 = 0;
        while device < 32
            invariant
                bus < 256,
                device <= 32,
                target == id_word(device_id, vendor_id),
                forall|s: int|
                    0 <= s < ids@.len() && s < bus * 256 + device * 8 ==> #[trigger] ids@[s]
                        != target,
            decreases 32 - device,
        {
            let mut function: u8 = 0;
            while function < 8
                invariant
                    bus < 256,
                    device < 32,
                    function <= 8,
                    target == id_word(device_id, vendor_id),
                    forall|s: int|
                        0 <= s < ids@.len() && s < bus * 256 + device * 8 + function
                            ==> #[trigger] ids@[s] != target,
                decreases 8 - function,
            {
                let s = bus as usize * 256 + device as usize * 8 + function as usize;
                if s < ids.len() && ids[s] == target {
                    return (bus as u8, device, function);
                }
                function = function + 1;
            }
            device = device + 1;
        }
        bus = bus + 1;
    }
    (0xFF, 0xFF, 0xFF)
}

} // verus!
