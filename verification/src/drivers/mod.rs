pub mod framework;
pub mod serial;
pub mod ps2;
pub mod keyboard;
pub mod mouse;
pub mod pci;
pub mod display;
pub mod block;
pub mod virtio_blk;
pub mod virtio_gpu;
pub mod network;
pub mod audio;
pub mod usb;

use vstd::prelude::*;
use crate::drivers::framework::{BusKind, Class, DeviceState, Driver, DriverStatus, Registry, MAX_DRIVERS};

verus! {

/// The state the framebuffer's setup leaves its device in.
pub open spec fn display_state_of(result: display::InitResult) -> DeviceState {
    match result {
        display::InitResult::Ready(_) => DeviceState::Ready,
        display::InitResult::Unsupported => DeviceState::Unsupported,
        display::InitResult::Failed(_) => DeviceState::Failed,
    }
}

/// The state a setup outcome leaves its device in: ready, unsupported (no such device),
/// or failed.
pub open spec fn input_state_of(ready: bool, unsupported: bool) -> DeviceState {
    if ready {
        DeviceState::Ready
    } else if unsupported {
        DeviceState::Unsupported
    } else {
        DeviceState::Failed
    }
}

pub fn ps2_state(result: ps2::InitResult) -> (r: DeviceState)
    ensures
        r == input_state_of(result is Ready, result is Unsupported),
{
    match result {
        ps2::InitResult::Ready => DeviceState::Ready,
        ps2::InitResult::Unsupported => DeviceState::Unsupported,
        ps2::InitResult::Failed => DeviceState::Failed,
    }
}

pub fn keyboard_state(result: keyboard::InitResult) -> (r: DeviceState)
    ensures
        r == input_state_of(result is Ready, result is Unsupported),
{
    match result {
        keyboard::InitResult::Ready => DeviceState::Ready,
        keyboard::InitResult::Unsupported => DeviceState::Unsupported,
        keyboard::InitResult::Failed => DeviceState::Failed,
    }
}

pub fn mouse_state(result: mouse::InitResult) -> (r: DeviceState)
    ensures
        r == input_state_of(result is Ready, result is Unsupported),
{
    match result {
        mouse::InitResult::Ready => DeviceState::Ready,
        mouse::InitResult::Unsupported => DeviceState::Unsupported,
        mouse::InitResult::Failed => DeviceState::Failed,
    }
}

/// The six boot-time drivers and their states, in registration order: the serial
/// console (early, always ready), the framebuffer, the ramdisk, and the PS/2
/// controller, keyboard and mouse.
pub open spec fn boot_drivers<C>(
    display: DeviceState,
    block: DeviceState,
    ps2: DeviceState,
    keyboard: DeviceState,
    mouse: DeviceState,
) -> Seq<DriverStatus<C>> {
    seq![
        DriverStatus {
            driver: Driver { id: 1, name: "serial", class: Class::Serial, bus: BusKind::Platform, stage: framework::DriverStage::Early, ops: None },
            state: DeviceState::Ready,
        },
        DriverStatus {
            driver: Driver { id: 2, name: "framebuffer", class: Class::Display, bus: BusKind::Platform, stage: framework::DriverStage::Runtime, ops: None },
            state: display,
        },
        DriverStatus {
            driver: Driver { id: 3, name: "ramdisk0", class: Class::Block, bus: BusKind::Platform, stage: framework::DriverStage::Runtime, ops: None },
            state: block,
        },
        DriverStatus {
            driver: Driver { id: 4, name: "ps2-controller", class: Class::Input, bus: BusKind::Ps2, stage: framework::DriverStage::Runtime, ops: None },
            state: ps2,
        },
        DriverStatus {
            driver: Driver { id: 5, name: "ps2-keyboard", class: Class::Input, bus: BusKind::Ps2, stage: framework::DriverStage::Runtime, ops: None },
            state: keyboard,
        },
        DriverStatus {
            driver: Driver { id: 6, name: "ps2-mouse", class: Class::Input, bus: BusKind::Ps2, stage: framework::DriverStage::Runtime, ops: None },
            state: mouse,
        },
    ]
}

/// How many of `wanted` registrations fit in `room` free places.
pub open spec fn registered_count(room: int, wanted: int) -> int {
    if room < 0 {
        0
    } else if room < wanted {
        room
    } else {
        wanted
    }
}

/// Starts the registry afresh and registers the boot-time drivers with the states their
/// setup left them in (the display's outcome, whether the block layer came up, and the
/// PS/2 outcomes); the registry then holds exactly those six, and the answer is true.
#[verifier::rlimit(50)]
pub fn init<C: Copy>(
    registry: &mut Registry<C>,
    display: &display::InitResult,
    block_ready: bool,
    ps2: ps2::InitResult,
    keyboard: keyboard::InitResult,
    mouse: mouse::InitResult,
) -> (ok: bool)
    ensures
        ({
            let list = boot_drivers::<C>(
                display_state_of(*display),
                if block_ready { DeviceState::Ready } else { DeviceState::Failed },
                input_state_of(ps2 is Ready, ps2 is Unsupported),
                input_state_of(keyboard is Ready, keyboard is Unsupported),
                input_state_of(mouse is Ready, mouse is Unsupported),
            );
            &&& ok
            &&& final(registry)@ == list
        }),
{
    registry.clear();
    let ghost start = registry@;
    let display_state = match display {
        display::InitResult::Ready(_) => DeviceState::Ready,
        display::InitResult::Unsupported => DeviceState::Unsupported,
        display::InitResult::Failed(_) => DeviceState::Failed,
    };
    let block_state = if block_ready { DeviceState::Ready } else { DeviceState::Failed };
    let ps2_now = ps2_state(ps2);
    let keyboard_now = keyboard_state(keyboard);
    let mouse_now = mouse_state(mouse);
    let ghost list = boot_drivers::<C>(display_state, block_state, ps2_now, keyboard_now, mouse_now);
    let mut entries: Vec<DriverStatus<C>> = Vec::new();
    entries.push(DriverStatus { driver: Driver::early(1, "serial", Class::Serial, BusKind::Platform), state: DeviceState::Ready });
    entries.push(DriverStatus { driver: Driver::new(2, "framebuffer", Class::Display, BusKind::Platform), state: display_state });
    entries.push(DriverStatus { driver: Driver::new(3, "ramdisk0", Class::Block, BusKind::Platform), state: block_state });
    entries.push(DriverStatus { driver: Driver::new(4, "ps2-controller", Class::Input, BusKind::Ps2), state: ps2_now });
    entries.push(DriverStatus { driver: Driver::new(5, "ps2-keyboard", Class::Input, BusKind::Ps2), state: keyboard_now });
    entries.push(DriverStatus { driver: Driver::new(6, "ps2-mouse", Class::Input, BusKind::Ps2), state: mouse_now });
    assert(entries@ =~= list);
    let ghost room = MAX_DRIVERS - start.len();
    let mut ok = true;
    let mut i: usize = 0;
    assert(registry@ =~= start + list.take(0));
    while i < entries.len()
        invariant
            entries@ == list,
            list.len() == 6,
            i <= 6,
            room == MAX_DRIVERS - start.len(),
            registry@ == start + list.take(registered_count(room, i as int)),
            ok == (i == 0 || room >= i),
        decreases 6 - i,
    {
        let entry = entries[i];
        let added = registry.register(entry.driver, entry.state);
        if !added {
            ok = false;
        }
        proof {
            assert(registry@ =~= start + list.take(registered_count(room, i + 1)));
        }
        i = i + 1;
    }
    proof {
        assert(list.take(6) =~= list);
        assert(start + list =~= list);
    }
    ok
}

/// The four PCI drivers registered at runtime and their states, in registration order:
/// the xHCI USB host, the virtio-gpu display, the AC'97 audio controller and the
/// virtio-net controller.
pub open spec fn runtime_drivers<C>(
    xhci: DeviceState,
    gpu: DeviceState,
    audio: DeviceState,
    network: DeviceState,
) -> Seq<DriverStatus<C>> {
    seq![
        DriverStatus {
            driver: Driver { id: 7, name: "xhci", class: Class::UsbHost, bus: BusKind::Pci, stage: framework::DriverStage::Runtime, ops: None },
            state: xhci,
        },
        DriverStatus {
            driver: Driver { id: 10, name: "virtio-gpu", class: Class::Display, bus: BusKind::Pci, stage: framework::DriverStage::Runtime, ops: None },
            state: gpu,
        },
        DriverStatus {
            driver: Driver { id: 8, name: "ac97-audio", class: Class::Audio, bus: BusKind::Pci, stage: framework::DriverStage::Runtime, ops: None },
            state: audio,
        },
        DriverStatus {
            driver: Driver { id: 9, name: "virtio-net", class: Class::Network, bus: BusKind::Pci, stage: framework::DriverStage::Runtime, ops: None },
            state: network,
        },
    ]
}

/// Registers the runtime PCI drivers with the states their probes left them in: the
/// xHCI host's state, then the virtio-gpu, AC'97 and virtio-net outcomes, as many as
/// the registry has room for. A ready xHCI host is handed to the userspace service
/// supervisor, whose answer is `handoff_ok` (not consulted otherwise). True when all
/// four were registered and a ready host's handoff succeeded.
#[verifier::rlimit(50)]
pub fn runtime_init<C: Copy>(
    registry: &mut Registry<C>,
    xhci: DeviceState,
    handoff_ok: bool,
    gpu: &virtio_gpu::InitResult,
    audio: &audio::InitResult,
    network: &network::InitResult,
) -> (ok: bool)
    ensures
        ({
            let list = runtime_drivers::<C>(
                xhci,
                input_state_of(*gpu is Ready, *gpu is Unsupported),
                input_state_of(*audio is Ready, *audio is Unsupported),
                input_state_of(*network is Ready, *network is Unsupported),
            );
            let room = MAX_DRIVERS - old(registry)@.len();
            &&& ok == (room >= 4 && (xhci == DeviceState::Ready ==> handoff_ok))
            &&& final(registry)@ == old(registry)@ + list.take(registered_count(room, 4))
        }),
{
    let ghost start = registry@;
    let gpu_state = match gpu {
        virtio_gpu::InitResult::Ready(_) => DeviceState::Ready,
        virtio_gpu::InitResult::Unsupported => DeviceState::Unsupported,
        virtio_gpu::InitResult::Failed(_) => DeviceState::Failed,
    };
    let audio_state = match audio {
        audio::InitResult::Ready(_) => DeviceState::Ready,
        audio::InitResult::Unsupported => DeviceState::Unsupported,
        audio::InitResult::Failed(_) => DeviceState::Failed,
    };
    let network_state = match network {
        network::InitResult::Ready(_) => DeviceState::Ready,
        network::InitResult::Unsupported => DeviceState::Unsupported,
        network::InitResult::Failed(_) => DeviceState::Failed,
    };
    let ghost list = runtime_drivers::<C>(xhci, gpu_state, audio_state, network_state);
    let mut entries: Vec<DriverStatus<C>> = Vec::new();
    entries.push(DriverStatus { driver: Driver::new(7, "xhci", Class::UsbHost, BusKind::Pci), state: xhci });
    entries.push(DriverStatus { driver: Driver::new(10, "virtio-gpu", Class::Display, BusKind::Pci), state: gpu_state });
    entries.push(DriverStatus { driver: Driver::new(8, "ac97-audio", Class::Audio, BusKind::Pci), state: audio_state });
    entries.push(DriverStatus { driver: Driver::new(9, "virtio-net", Class::Network, BusKind::Pci), state: network_state });
    assert(entries@ =~= list);
    let ghost room = MAX_DRIVERS - start.len();
    let mut ok = true;
    let mut i: usize = 0;
    assert(registry@ =~= start + list.take(0));
    while i < entries.len()
        invariant
            entries@ == list,
            list.len() == 4,
            list[0].state == xhci,
            i <= 4,
            room == MAX_DRIVERS - start.len(),
            registry@ == start + list.take(registered_count(room, i as int)),
            ok == ((i == 0 || room >= i) && (i >= 1 && xhci == DeviceState::Ready ==> handoff_ok)),
        decreases 4 - i,
    {
        let entry = entries[i];
        let added = registry.register(entry.driver, entry.state);
        if !added {
            ok = false;
        }
        if i == 0 && entry.state == DeviceState::Ready && !handoff_ok {
            ok = false;
        }
        proof {
            assert(registry@ =~= start + list.take(registered_count(room, i + 1)));
        }
        i = i + 1;
    }
    ok
}

} // verus!
