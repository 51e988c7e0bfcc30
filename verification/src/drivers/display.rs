use vstd::prelude::*;
use crate::boot::{PixelFormat, RawFramebuffer};

verus! {

pub const MAX_MODES: usize = 8;
pub const MAX_DAMAGE: usize = 32;
pub const MODE_CONTRACT_VERSION: u8 = 1;

#[derive(Clone, Copy, Debug, PartialEq, Eq, Structural)]
pub enum ModePolicy {
    FirmwareFixed,
    ControllerTransactional,
}

/// The display's promise about modes: the firmware mode is fixed and resizing a
/// host window or scanout does not change the guest's mode.
#[derive(Clone, Copy, Debug, PartialEq, Eq, Structural)]
pub struct ModeContract {
    pub version: u8,
    pub firmware_policy: ModePolicy,
    pub host_window_resize_changes_guest_mode: bool,
    pub scanout_resize_changes_guest_mode: bool,
}

pub open spec fn spec_mode_contract() -> ModeContract {
    ModeContract {
        version: MODE_CONTRACT_VERSION,
        firmware_policy: ModePolicy::FirmwareFixed,
        host_window_resize_changes_guest_mode: false,
        scanout_resize_changes_guest_mode: false,
    }
}

pub fn mode_contract() -> (r: ModeContract)
    ensures
        r == spec_mode_contract(),
{
    ModeContract {
        version: MODE_CONTRACT_VERSION,
        firmware_policy: ModePolicy::FirmwareFixed,
        host_window_resize_changes_guest_mode: false,
        scanout_resize_changes_guest_mode: false,
    }
}

#[derive(Clone, Copy, Debug, PartialEq, Eq, Structural)]
pub enum Error {
    Unsupported,
    NoDisplay,
    InvalidMode,
    InvalidRegion,
    DamageFull,
    BufferTooSmall,
}

#[derive(Clone, Copy, Debug, PartialEq, Eq, Structural)]
pub struct Mode {
    pub id: u16,
    pub width: u32,
    pub height: u32,
    pub stride: usize,
    pub bytes_per_pixel: usize,
    pub format: PixelFormat,
    pub policy: ModePolicy,
}

#[derive(Clone, Copy, Debug, PartialEq, Eq, Structural)]
pub struct DamageRegion {
    pub x: u32,
    pub y: u32,
    pub width: u32,
    pub height: u32,
}

#[derive(Clone, Copy, Debug, PartialEq, Eq, Structural)]
pub struct Cursor {
    pub x: u32,
    pub y: u32,
    pub width: u32,
    pub height: u32,
    pub visible: bool,
}

#[derive(Clone, Copy, Debug, PartialEq, Eq, Structural)]
pub struct Status {
    pub contract_version: u8,
    pub mode_policy: ModePolicy,
    pub present: bool,
    pub active_mode: u16,
    pub mode_count: u8,
    pub edid_available: bool,
    pub pending_damage: u8,
    pub cursor_visible: bool,
    pub hotplug_generation: u64,
    pub flushes: u64,
}

#[derive(Clone, Copy, Debug, PartialEq, Eq, Structural)]
pub enum InitResult {
    Ready(Status),
    Unsupported,
    Failed(Error),
}

#[derive(Clone, Copy, Debug, PartialEq, Eq, Structural)]
pub enum HotplugEvent {
    Connected,
    Disconnected,
}

/// A framebuffer geometry the display accepts: non-empty, three or four bytes per
/// pixel, rows that fit the stride and a buffer that holds every row.
#[verifier::allow_in_spec]
pub fn valid_geometry(width: u32, height: u32, stride: usize, bytes_per_pixel: usize, size: usize) -> bool
    returns
        width != 0 && height != 0 && (bytes_per_pixel == 3 || bytes_per_pixel == 4) && stride
            >= width * bytes_per_pixel && stride * height <= size,
{
    if width == 0 || height == 0 || !(bytes_per_pixel == 3 || bytes_per_pixel == 4) {
        return false;
    }
    if (width as u64) * (bytes_per_pixel as u64) > stride as u64 {
        return false;
    }
    match stride.checked_mul(height as usize) {
        Some(end) => end <= size,
        None => false,
    }
}

/// A non-empty region inside a `width` by `height` mode.
#[verifier::allow_in_spec]
pub fn valid_region(region: DamageRegion, width: u32, height: u32) -> bool
    returns
        region.width != 0 && region.height != 0 && region.x + region.width <= width && region.y
            + region.height <= height,
{
    region.width != 0 && region.height != 0 && match region.x.checked_add(region.width) {
        Some(end) => end <= width,
        None => false,
    } && match region.y.checked_add(region.height) {
        Some(end) => end <= height,
        None => false,
    }
}

/// The guest size a scanout shows, when the scanout is at least as large.
pub fn validate_scanout(guest_width: u32, guest_height: u32, scanout_width: u32, scanout_height: u32) -> (r:
    Option<(u32, u32)>)
    ensures
        r == (if guest_width != 0 && guest_height != 0 && scanout_width >= guest_width
            && scanout_height >= guest_height {
            Some((guest_width, guest_height))
        } else {
            None
        }),
{
    if guest_width != 0 && guest_height != 0 && scanout_width >= guest_width && scanout_height
        >= guest_height {
        Some((guest_width, guest_height))
    } else {
        None
    }
}

/// The firmware framebuffer as mode 0, when its geometry is valid.
pub fn mode_from_raw(raw: RawFramebuffer) -> (r: Option<Mode>)
    ensures
        r == (if valid_geometry(raw.width, raw.height, raw.stride, raw.bytes_per_pixel, raw.size) {
            Some(
                Mode {
                    id: 0,
                    width: raw.width,
                    height: raw.height,
                    stride: raw.stride,
                    bytes_per_pixel: raw.bytes_per_pixel,
                    format: raw.format,
                    policy: ModePolicy::FirmwareFixed,
                },
            )
        } else {
            None
        }),
{
    if valid_geometry(raw.width, raw.height, raw.stride, raw.bytes_per_pixel, raw.size) {
        Some(
            Mode {
                id: 0,
                width: raw.width,
                height: raw.height,
                stride: raw.stride,
                bytes_per_pixel: raw.bytes_per_pixel,
                format: raw.format,
                policy: ModePolicy::FirmwareFixed,
            },
        )
    } else {
        None
    }
}

/// The first mode with id `id` among `modes`.
pub open spec fn find_mode(modes: Seq<Mode>, id: u16) -> Option<Mode>
    decreases modes.len(),
{
    if modes.len() == 0 {
        None
    } else if modes[0].id == id {
        Some(modes[0])
    } else {
        find_mode(modes.drop_first(), id)
    }
}

/// A display's modes, pending damage, cursor and counters.
pub struct State {
    pub modes: Vec<Mode>,
    pub active_mode: u16,
    pub damage: Vec<DamageRegion>,
    pub cursor: Cursor,
    pub hotplug_generation: u64,
    pub flushes: u64,
}

impl State {
    pub open spec fn wf(&self) -> bool {
        1 <= self.modes@.len() <= MAX_MODES && self.damage@.len() <= MAX_DAMAGE
    }

    pub fn active_mode(&self) -> (r: Option<Mode>)
        ensures
            r == find_mode(self.modes@, self.active_mode),
    {
        let mut i: usize = 0;
        assert(self.modes@.skip(0) == self.modes@);
        while i < self.modes.len()
            invariant
                i <= self.modes@.len(),
                find_mode(self.modes@, self.active_mode) == find_mode(
                    self.modes@.skip(i as int),
                    self.active_mode,
                ),
            decreases self.modes@.len() - i,
        {
            assert(self.modes@.skip(i as int).drop_first() == self.modes@.skip(i + 1));
            if self.modes[i].id == self.active_mode {
                return Some(self.modes[i]);
            }
            i = i + 1;
        }
        None
    }

    pub fn status(&self) -> (r: Status)
        requires
            self.wf(),
        ensures
            r == (Status {
                contract_version: MODE_CONTRACT_VERSION,
                mode_policy: match find_mode(self.modes@, self.active_mode) {
                    Some(mode) => mode.policy,
                    None => ModePolicy::FirmwareFixed,
                },
                present: true,
                active_mode: self.active_mode,
                mode_count: self.modes@.len() as u8,
                edid_available: false,
                pending_damage: self.damage@.len() as u8,
                cursor_visible: self.cursor.visible,
                hotplug_generation: self.hotplug_generation,
                flushes: self.flushes,
            }),
    {
        let policy = match self.active_mode() {
            Some(mode) => mode.policy,
            None => ModePolicy::FirmwareFixed,
        };
        Status {
            contract_version: MODE_CONTRACT_VERSION,
            mode_policy: policy,
            present: true,
            active_mode: self.active_mode,
            mode_count: self.modes.len() as u8,
            edid_available: false,
            pending_damage: self.damage.len() as u8,
            cursor_visible: self.cursor.visible,
            hotplug_generation: self.hotplug_generation,
            flushes: self.flushes,
        }
    }
}

/// The display, once a framebuffer with a valid geometry was found.
pub struct Display {
    pub state: Option<State>,
}

impl Display {
    pub open spec fn wf(&self) -> bool {
        self.state matches Some(state) ==> state.wf()
    }

    /// Takes over the firmware framebuffer, if there is one and it is valid.
    pub fn init(raw: Option<RawFramebuffer>) -> (r: (Self, InitResult))
        ensures
            r.0.wf(),
            raw is None ==> r.0.state is None && r.1 == InitResult::Unsupported,
            raw matches Some(fb) ==> match mode_from_raw_spec(fb) {
                None => r.0.state is None && r.1 == InitResult::Failed(Error::InvalidMode),
                Some(mode) => {
                    &&& r.0.state matches Some(state) && state.modes@ == seq![mode]
                        && state.active_mode == 0 && state.damage@.len() == 0 && !state.cursor.visible
                        && state.flushes == 0 && state.hotplug_generation == 0
                    &&& r.1 matches InitResult::Ready(status) && status.present && status.mode_count
                        == 1 && status.active_mode == 0
                },
            },
    {
        let fb = match raw {
            None => return (Display { state: None }, InitResult::Unsupported),
            Some(fb) => fb,
        };
        let mode = match mode_from_raw(fb) {
            None => return (Display { state: None }, InitResult::Failed(Error::InvalidMode)),
            Some(mode) => mode,
        };
        let mut modes: Vec<Mode> = Vec::new();
        modes.push(mode);
        let state = State {
            modes,
            active_mode: mode.id,
            damage: Vec::new(),
            cursor: Cursor { x: 0, y: 0, width: 0, height: 0, visible: false },
            hotplug_generation: 0,
            flushes: 0,
        };
        let status = state.status();
        (Display { state: Some(state) }, InitResult::Ready(status))
    }

    pub fn status(&self) -> (r: Option<Status>)
        requires
            self.wf(),
        ensures
            self.state is None ==> r is None,
            self.state matches Some(state) ==> {
                &&& r matches Some(s) && s.present && s.active_mode == state.active_mode
                    && s.pending_damage == state.damage@.len() && s.flushes == state.flushes
                    && s.mode_count == state.modes@.len()
            },
    {
        match &self.state {
            None => None,
            Some(state) => Some(state.status()),
        }
    }

    /// Copies the modes into `output`.
    pub fn modes(&self, output: &mut Vec<Mode>) -> (r: Result<usize, Error>)
        requires
            self.wf(),
        ensures
            self.state is None ==> r == Err::<usize, Error>(Error::NoDisplay) && final(output)@
                == old(output)@,
            self.state matches Some(state) ==> {
                &&& old(output)@.len() < state.modes@.len() ==> r == Err::<usize, Error>(
                    Error::BufferTooSmall,
                ) && final(output)@ == old(output)@
                &&& old(output)@.len() >= state.modes@.len() ==> r == Ok::<usize, Error>(
                    state.modes@.len() as usize,
                ) && final(output)@.len() == old(output)@.len() && final(output)@.take(
                    state.modes@.len() as int,
                ) == state.modes@ && final(output)@.skip(state.modes@.len() as int) == old(output)@.skip(state.modes@.len() as int)
            },
    {
        let state = match &self.state {
            None => return Err(Error::NoDisplay),
            Some(state) => state,
        };
        if output.len() < state.modes.len() {
            return Err(Error::BufferTooSmall);
        }
        let mut i: usize = 0;
        while i < state.modes.len()
            invariant
                i <= state.modes@.len(),
                state.modes@.len() <= output@.len(),
                output@.len() == old(output)@.len(),
                forall|k: int| 0 <= k < i ==> output@[k] == state.modes@[k],
                forall|k: int| i <= k < output@.len() ==> output@[k] == old(output)@[k],
            decreases state.modes@.len() - i,
        {
            output.set(i, state.modes[i]);
            i = i + 1;
        }
        assert(output@.take(state.modes@.len() as int) == state.modes@);
        assert(output@.skip(state.modes@.len() as int) == old(output)@.skip(state.modes@.len() as int));
        Ok(state.modes.len())
    }

    /// Selects mode `id`; only the active mode can be selected.
    pub fn set_mode(&self, id: u16) -> (r: Result<Mode, Error>)
        requires
            self.wf(),
        ensures
            self.state is None ==> r == Err::<Mode, Error>(Error::NoDisplay),
            self.state matches Some(state) ==> r == (match find_mode(state.modes@, id) {
                None => Err(Error::InvalidMode),
                Some(mode) => if id != state.active_mode {
                    Err(Error::Unsupported)
                } else {
                    Ok(mode)
                },
            }),
    {
        let state = match &self.state {
            None => return Err(Error::NoDisplay),
            Some(state) => state,
        };
        let mut i: usize = 0;
        assert(state.modes@.skip(0) == state.modes@);
        while i < state.modes.len()
            invariant
                self.state == Some(*state),
                i <= state.modes@.len(),
                find_mode(state.modes@, id) == find_mode(state.modes@.skip(i as int), id),
            decreases state.modes@.len() - i,
        {
            assert(state.modes@.skip(i as int).drop_first() == state.modes@.skip(i + 1));
            if state.modes[i].id == id {
                if id != state.active_mode {
                    return Err(Error::Unsupported);
                }
                return Ok(state.modes[i]);
            }
            i = i + 1;
        }
        Err(Error::InvalidMode)
    }

    /// There is no EDID to read.
    pub fn edid(&self, output: &mut Vec<u8>) -> (r: Result<usize, Error>)
        ensures
            r == Err::<usize, Error>(if self.state is None {
                Error::NoDisplay
            } else {
                Error::Unsupported
            }),
            final(output)@ == old(output)@,
    {
        if self.state.is_none() {
            return Err(Error::NoDisplay);
        }
        Err(Error::Unsupported)
    }

    /// Queues a region of the active mode to be flushed.
    pub fn queue_damage(&mut self, region: DamageRegion) -> (r: Result<(), Error>)
        requires
            old(self).wf(),
        ensures
            final(self).wf(),
            old(self).state is None ==> r == Err::<(), Error>(Error::NoDisplay) && final(self).state
                is None,
            old(self).state matches Some(state) ==> {
                let mode = find_mode(state.modes@, state.active_mode);
                let expected: Result<(), Error> = match mode {
                    None => Err(Error::InvalidMode),
                    Some(m) => if !valid_region(region, m.width, m.height) {
                        Err(Error::InvalidRegion)
                    } else if state.damage@.len() >= MAX_DAMAGE {
                        Err(Error::DamageFull)
                    } else {
                        Ok(())
                    },
                };
                &&& r == expected
                &&& final(self).state matches Some(after) && after.modes@ == state.modes@
                    && after.active_mode == state.active_mode && after.cursor == state.cursor
                    && after.flushes == state.flushes && after.damage@ == (if r is Ok {
                    state.damage@.push(region)
                } else {
                    state.damage@
                })
            },
    {
        match &mut self.state {
            None => Err(Error::NoDisplay),
            Some(state) => {
                let mode = match state.active_mode() {
                    None => return Err(Error::InvalidMode),
                    Some(mode) => mode,
                };
                if !valid_region(region, mode.width, mode.height) {
                    return Err(Error::InvalidRegion);
                }
                if state.damage.len() >= MAX_DAMAGE {
                    return Err(Error::DamageFull);
                }
                state.damage.push(region);
                Ok(())
            },
        }
    }

    /// Flushes the queued damage; returns how many regions were pending.
    pub fn flush(&mut self) -> (r: Result<usize, Error>)
        requires
            old(self).wf(),
        ensures
            final(self).wf(),
            old(self).state is None ==> r == Err::<usize, Error>(Error::NoDisplay) && final(self).state is None,
            old(self).state matches Some(state) ==> {
                &&& r == Ok::<usize, Error>(state.damage@.len() as usize)
                &&& final(self).state matches Some(after) && after.damage@.len() == 0
                && after.flushes == (if state.flushes == u64::MAX {
                u64::MAX
            } else {
                (state.flushes + 1) as u64
            }) && after.modes@ == state.modes@ && after.active_mode == state.active_mode
                && after.cursor == state.cursor
            },
    {
        match &mut self.state {
            None => Err(Error::NoDisplay),
            Some(state) => {
                let flushed = state.damage.len();
                state.damage = Vec::new();
                state.flushes = state.flushes.saturating_add(1);
                Ok(flushed)
            },
        }
    }

    /// Sets the cursor; a visible cursor must lie inside the active mode.
    pub fn set_cursor(&mut self, cursor: Cursor) -> (r: Result<(), Error>)
        requires
            old(self).wf(),
        ensures
            final(self).wf(),
            old(self).state is None ==> r == Err::<(), Error>(Error::NoDisplay),
            old(self).state matches Some(state) ==> {
                let expected: Result<(), Error> = match find_mode(state.modes@, state.active_mode) {
                    None => Err(Error::InvalidMode),
                    Some(m) => if cursor.visible && !valid_region(
                        DamageRegion { x: cursor.x, y: cursor.y, width: cursor.width, height: cursor.height },
                        m.width,
                        m.height,
                    ) {
                        Err(Error::InvalidRegion)
                    } else {
                        Ok(())
                    },
                };
                &&& r == expected
                &&& final(self).state matches Some(after) && after.cursor == (if r is Ok {
                    cursor
                } else {
                    state.cursor
                }) && after.damage@ == state.damage@ && after.modes@ == state.modes@
            },
    {
        match &mut self.state {
            None => Err(Error::NoDisplay),
            Some(state) => {
                let mode = match state.active_mode() {
                    None => return Err(Error::InvalidMode),
                    Some(mode) => mode,
                };
                if cursor.visible && !valid_region(
                    DamageRegion { x: cursor.x, y: cursor.y, width: cursor.width, height: cursor.height },
                    mode.width,
                    mode.height,
                ) {
                    return Err(Error::InvalidRegion);
                }
                state.cursor = cursor;
                Ok(())
            },
        }
    }
}

pub open spec fn mode_from_raw_spec(raw: RawFramebuffer) -> Option<Mode> {
    if valid_geometry(raw.width, raw.height, raw.stride, raw.bytes_per_pixel, raw.size) {
        Some(
            Mode {
                id: 0,
                width: raw.width,
                height: raw.height,
                stride: raw.stride,
                bytes_per_pixel: raw.bytes_per_pixel,
                format: raw.format,
                policy: ModePolicy::FirmwareFixed,
            },
        )
    } else {
        None
    }
}

/// No hotplug source is wired up; no event ever arrives.
pub fn poll_hotplug() -> (r: Option<HotplugEvent>)
    ensures
        r is None,
{
    None
}

/// Checks the mode contract and the geometry, scanout and region rules.
pub fn contract_self_check() {
    let contract = mode_contract();
    assert(contract.version == MODE_CONTRACT_VERSION);
    assert(contract.firmware_policy == ModePolicy::FirmwareFixed);
    assert(!contract.host_window_resize_changes_guest_mode);
    assert(!contract.scanout_resize_changes_guest_mode);
    let g = valid_geometry(640, 480, 2560, 4, 2560 * 480);
    assert(g);
    let g = valid_geometry(640, 480, 100, 4, 2560 * 480);
    assert(!g);
    let g = valid_geometry(640, 480, 2560, 4, 1024);
    assert(!g);
    let s = validate_scanout(800, 600, 1200, 800);
    assert(s == Some((800u32, 600u32)));
    let s = validate_scanout(800, 600, 640, 480);
    assert(s is None);
    let v = valid_region(DamageRegion { x: 10, y: 10, width: 20, height: 20 }, 640, 480);
    assert(v);
    let v = valid_region(DamageRegion { x: 630, y: 10, width: 20, height: 20 }, 640, 480);
    assert(!v);
}

} // verus!
