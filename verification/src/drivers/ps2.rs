use vstd::prelude::*;

verus! {

pub const DATA_PORT: u16 = 0x60;
pub const STATUS_COMMAND_PORT: u16 = 0x64;
pub const OUTPUT_FULL: u8 = 1;
pub const INPUT_FULL: u8 = 2;
pub const AUX_OUTPUT: u8 = 0x20;
pub const FIRST_IRQ: u8 = 1;
pub const SECOND_IRQ: u8 = 2;
pub const TRANSLATION: u8 = 0x40;
pub const READ_CONFIG: u8 = 0x20;
pub const WRITE_CONFIG: u8 = 0x60;
pub const TEST_CONTROLLER: u8 = 0xaa;
pub const TEST_FIRST_PORT: u8 = 0xab;
pub const TEST_SECOND_PORT: u8 = 0xa9;
pub const DISABLE_FIRST_PORT: u8 = 0xad;
pub const DISABLE_SECOND_PORT: u8 = 0xa7;
pub const ENABLE_FIRST_PORT: u8 = 0xae;
pub const ENABLE_SECOND_PORT: u8 = 0xa8;
pub const WRITE_SECOND_PORT: u8 = 0xd4;
pub const CONTROLLER_OK: u8 = 0x55;
pub const PORT_OK: u8 = 0x00;
pub const ACK: u8 = 0xfa;
pub const RESEND: u8 = 0xfe;
pub const POLL_LIMIT: usize = 100_000;
pub const COMMAND_RETRIES: usize = 3;
pub const IRQ_DRAIN_LIMIT: usize = 8;
/// The ring's slot count; it holds one byte fewer.
pub const QUEUE_CAPACITY: usize = 128;

#[derive(Clone, Copy, Debug, PartialEq, Eq, Structural)]
pub enum Port {
    Keyboard,
    Mouse,
}

impl Port {
    pub fn is_mouse(self) -> (r: bool)
        ensures
            r == (self == Port::Mouse),
    {
        match self {
            Port::Mouse => true,
            Port::Keyboard => false,
        }
    }
}

#[derive(Clone, Copy, Debug, PartialEq, Eq, Structural)]
pub enum InitResult {
    Ready,
    Unsupported,
    Failed,
}

#[derive(Clone, Copy, Debug, PartialEq, Eq, Structural)]
pub enum Error {
    Timeout,
    ControllerSelfTest,
    PortSelfTest,
    UnexpectedResponse,
    ResendLimit,
    Busy,
}

#[derive(Clone, Copy, Debug, PartialEq, Eq, Structural)]
pub enum AckAction {
    Accepted,
    Retry,
    Unexpected,
}

#[derive(Clone, Copy, Debug, PartialEq, Eq, Structural)]
pub struct Status {
    pub controller: bool,
    pub config: u8,
    pub keyboard_port: bool,
    pub mouse_port: bool,
    pub irq_registered: bool,
    pub irq_enabled: bool,
    pub keyboard_dropped: u64,
    pub mouse_dropped: u64,
}

/// What a device's answer to a command means.
pub fn ack_action(byte: u8) -> (r: AckAction)
    ensures
        r == (if byte == ACK {
            AckAction::Accepted
        } else if byte == RESEND {
            AckAction::Retry
        } else {
            AckAction::Unexpected
        }),
{
    if byte == ACK {
        AckAction::Accepted
    } else if byte == RESEND {
        AckAction::Retry
    } else {
        AckAction::Unexpected
    }
}

/// The ring slot after `index`.
pub fn next_index(index: usize) -> (r: usize)
    requires
        index < QUEUE_CAPACITY,
    ensures
        r == (index + 1) % (QUEUE_CAPACITY as int),
{
    if index + 1 == QUEUE_CAPACITY {
        0
    } else {
        index + 1
    }
}

/// The result an initialisation attempt reports: self-test failures are
/// failures, every other error means no usable controller.
#[verifier::allow_in_spec]
pub fn init_result(result: Result<(u8, bool, bool), Error>) -> InitResult
    returns
        (match result {
            Ok(_) => InitResult::Ready,
            Err(Error::ControllerSelfTest) => InitResult::Failed,
            Err(Error::PortSelfTest) => InitResult::Failed,
            Err(_) => InitResult::Unsupported,
        }),
{
    match result {
        Ok(_) => InitResult::Ready,
        Err(Error::ControllerSelfTest) => InitResult::Failed,
        Err(Error::PortSelfTest) => InitResult::Failed,
        Err(_) => InitResult::Unsupported,
    }
}

/// The configuration byte during initialisation: both port interrupts and scan
/// code translation off.
pub fn quiet_config(config: u8) -> (r: u8)
    ensures
        r == config & !(FIRST_IRQ | SECOND_IRQ | TRANSLATION),
{
    config & !(FIRST_IRQ | SECOND_IRQ | TRANSLATION)
}

/// The configuration byte with the interrupts of the working ports on.
pub open spec fn spec_interrupt_config(config: u8, keyboard: bool, mouse: bool) -> u8 {
    (config & !(FIRST_IRQ | SECOND_IRQ)) | (if keyboard {
        FIRST_IRQ
    } else {
        0
    }) | (if mouse {
        SECOND_IRQ
    } else {
        0
    })
}

pub fn interrupt_config(config: u8, keyboard: bool, mouse: bool) -> (r: u8)
    ensures
        r == spec_interrupt_config(config, keyboard, mouse),
{
    let mut value: u8 = config & !(FIRST_IRQ | SECOND_IRQ);
    let keyboard_bit: u8 = if keyboard {
        FIRST_IRQ
    } else {
        0
    };
    let mouse_bit: u8 = if mouse {
        SECOND_IRQ
    } else {
        0
    };
    value = value | keyboard_bit;
    value = value | mouse_bit;
    value
}

/// The port a byte read from the controller came from, by the status byte.
pub fn byte_source(status: u8) -> (r: Port)
    ensures
        r == (if status & AUX_OUTPUT != 0 {
            Port::Mouse
        } else {
            Port::Keyboard
        }),
{
    if status & AUX_OUTPUT != 0 {
        Port::Mouse
    } else {
        Port::Keyboard
    }
}

/// The message a failed device command reports.
pub fn command_error_message(error: Error) -> (r: &'static str)
    ensures
        r == (match error {
            Error::Timeout => "ps/2 command timeout",
            Error::ResendLimit => "ps/2 command resend limit",
            Error::UnexpectedResponse => "ps/2 unexpected response",
            _ => "ps/2 command unavailable",
        }),
{
    match error {
        Error::Timeout => "ps/2 command timeout",
        Error::ResendLimit => "ps/2 command resend limit",
        Error::UnexpectedResponse => "ps/2 unexpected response",
        _ => "ps/2 command unavailable",
    }
}

/// The controller's two I/O ports: status and command at 0x64, data at 0x60. The data
/// port may be out of reach, which reads and writes report.
pub trait Ps2Io {
    fn read_status(&mut self) -> u8;

    fn read_data(&mut self) -> Option<u8>;

    fn write_data(&mut self, value: u8) -> bool;

    fn write_command(&mut self, value: u8) -> bool;
}

/// The message a failed identify command reports.
pub fn identify_error_message(error: Error) -> (r: &'static str)
    ensures
        r == (match error {
            Error::Timeout => "ps/2 identify timeout",
            Error::ResendLimit => "ps/2 identify resend limit",
            Error::UnexpectedResponse => "ps/2 identify response error",
            _ => "ps/2 identify unavailable",
        }),
{
    match error {
        Error::Timeout => "ps/2 identify timeout",
        Error::ResendLimit => "ps/2 identify resend limit",
        Error::UnexpectedResponse => "ps/2 identify response error",
        _ => "ps/2 identify unavailable",
    }
}

fn read_data<I: Ps2Io>(io: &mut I) -> (r: Result<u8, Error>)
    ensures
        r is Err ==> r == Err::<u8, Error>(Error::Timeout),
{
    match io.read_data() {
        Some(byte) => Ok(byte),
        None => Err(Error::Timeout),
    }
}

fn write_data<I: Ps2Io>(io: &mut I, value: u8) -> (r: Result<(), Error>)
    ensures
        r is Err ==> r == Err::<(), Error>(Error::Timeout),
{
    if io.write_data(value) {
        Ok(())
    } else {
        Err(Error::Timeout)
    }
}

/// Waits, within the poll limit, for the controller to take input.
fn wait_input_empty<I: Ps2Io>(io: &mut I) -> (r: Result<(), Error>)
    ensures
        r is Err ==> r == Err::<(), Error>(Error::Timeout),
{
    let mut polls: usize = 0;
    while polls < POLL_LIMIT
        invariant
            polls <= POLL_LIMIT,
        decreases POLL_LIMIT - polls,
    {
        if io.read_status() & INPUT_FULL == 0 {
            return Ok(());
        }
        polls = polls + 1;
    }
    Err(Error::Timeout)
}

fn controller_command<I: Ps2Io>(io: &mut I, command: u8) -> (r: Result<(), Error>)
    ensures
        r is Err ==> r == Err::<(), Error>(Error::Timeout),
{
    wait_input_empty(io)?;
    if io.write_command(command) {
        Ok(())
    } else {
        Err(Error::Timeout)
    }
}

/// Waits, within the poll limit, for a byte from the controller and reads it.
fn read_data_after_output<I: Ps2Io>(io: &mut I) -> (r: Result<u8, Error>)
    ensures
        r is Err ==> r == Err::<u8, Error>(Error::Timeout),
{
    let mut polls: usize = 0;
    while polls < POLL_LIMIT
        invariant
            polls <= POLL_LIMIT,
        decreases POLL_LIMIT - polls,
    {
        if io.read_status() & OUTPUT_FULL != 0 {
            return read_data(io);
        }
        polls = polls + 1;
    }
    Err(Error::Timeout)
}

fn read_config<I: Ps2Io>(io: &mut I) -> (r: Result<u8, Error>)
    ensures
        r is Err ==> r == Err::<u8, Error>(Error::Timeout),
{
    controller_command(io, READ_CONFIG)?;
    read_data_after_output(io)
}

fn write_config<I: Ps2Io>(io: &mut I, config: u8) -> (r: Result<(), Error>)
    ensures
        r is Err ==> r == Err::<(), Error>(Error::Timeout),
{
    controller_command(io, WRITE_CONFIG)?;
    write_data(io, config)
}

/// Discards what the controller holds for the host, within the poll limit.
fn flush_output<I: Ps2Io>(io: &mut I) -> (r: Result<(), Error>)
    ensures
        r is Err ==> r == Err::<(), Error>(Error::Timeout),
{
    let mut polls: usize = 0;
    while polls < POLL_LIMIT
        invariant
            polls <= POLL_LIMIT,
        decreases POLL_LIMIT - polls,
    {
        if io.read_status() & OUTPUT_FULL == 0 {
            return Ok(());
        }
        read_data(io)?;
        polls = polls + 1;
    }
    Err(Error::Timeout)
}

fn test_port<I: Ps2Io>(io: &mut I, command: u8) -> (r: Result<bool, Error>)
    ensures
        r is Err ==> r == Err::<bool, Error>(Error::Timeout),
{
    flush_output(io)?;
    controller_command(io, command)?;
    Ok(read_data_after_output(io)? == PORT_OK)
}

/// Brings the controller up: both ports disabled and the output drained, interrupts and
/// translation switched off in the configuration byte, the controller's self-test, then
/// each port's test, and the ports that passed enabled. Gives the configuration written
/// and which ports work.
pub fn initialize<I: Ps2Io>(io: &mut I) -> (r: Result<(u8, bool, bool), Error>)
    ensures
        r matches Ok((config, keyboard, mouse)) ==> (keyboard || mouse) && exists|read: u8|
            config == read & !(FIRST_IRQ | SECOND_IRQ | TRANSLATION),
        r matches Err(e) ==> e == Error::Timeout || e == Error::ControllerSelfTest || e == Error::PortSelfTest,
{
    controller_command(io, DISABLE_FIRST_PORT)?;
    controller_command(io, DISABLE_SECOND_PORT)?;
    flush_output(io)?;
    let read = read_config(io)?;
    let config = quiet_config(read);
    write_config(io, config)?;
    flush_output(io)?;
    controller_command(io, TEST_CONTROLLER)?;
    if read_data_after_output(io)? != CONTROLLER_OK {
        return Err(Error::ControllerSelfTest);
    }
    let keyboard = test_port(io, TEST_FIRST_PORT)?;
    let mouse = test_port(io, TEST_SECOND_PORT)?;
    if !keyboard && !mouse {
        return Err(Error::PortSelfTest);
    }
    if keyboard {
        controller_command(io, ENABLE_FIRST_PORT)?;
    }
    if mouse {
        controller_command(io, ENABLE_SECOND_PORT)?;
    }
    Ok((config, keyboard, mouse))
}

/// The bytes a port delivered that no reader has taken yet, oldest first, and how
/// many were dropped because the ring was full.
pub struct ByteQueue {
    bytes: std::collections::VecDeque<u8>,
    dropped: u64,
}

impl ByteQueue {
    pub closed spec fn view(&self) -> Seq<u8> {
        self.bytes@
    }

    pub closed spec fn dropped_spec(&self) -> u64 {
        self.dropped
    }

    pub fn new() -> (r: Self)
        ensures
            r@ == Seq::<u8>::empty(),
            r.dropped_spec() == 0,
    {
        ByteQueue { bytes: std::collections::VecDeque::new(), dropped: 0 }
    }

    /// Appends `byte`, or counts it dropped when the ring is full.
    pub fn enqueue(&mut self, byte: u8) -> (r: bool)
        ensures
            r == (old(self)@.len() < QUEUE_CAPACITY - 1),
            r ==> final(self)@ == old(self)@.push(byte) && final(self).dropped_spec() == old(self).dropped_spec(),
            !r ==> final(self)@ == old(self)@ && final(self).dropped_spec() == (if old(self).dropped_spec() == u64::MAX {
                u64::MAX
            } else {
                (old(self).dropped_spec() + 1) as u64
            }),
    {
        if self.bytes.len() >= QUEUE_CAPACITY - 1 {
            self.dropped = self.dropped.saturating_add(1);
            return false;
        }
        self.bytes.push_back(byte);
        true
    }

    /// Takes the oldest byte.
    pub fn dequeue(&mut self) -> (r: Option<u8>)
        ensures
            old(self)@.len() == 0 ==> r is None && final(self)@ == old(self)@,
            old(self)@.len() > 0 ==> r == Some(old(self)@[0]) && final(self)@ == old(self)@.drop_first(),
            final(self).dropped_spec() == old(self).dropped_spec(),
    {
        self.bytes.pop_front()
    }

    pub fn dropped(&self) -> (r: u64)
        ensures
            r == self.dropped_spec(),
    {
        self.dropped
    }
}

/// The controller's state: which ports work, its configuration byte, the interrupt
/// registration, and the bytes each port delivered.
pub struct Controller {
    pub controller: bool,
    pub config: u8,
    pub keyboard_port: bool,
    pub mouse_port: bool,
    pub irq_registered: bool,
    pub irq_enabled: bool,
    pub keyboard: ByteQueue,
    pub mouse: ByteQueue,
}

impl Controller {
    /// A controller not yet initialised, with empty queues.
    pub fn new() -> (r: Self)
        ensures
            !r.controller && !r.keyboard_port && !r.mouse_port && !r.irq_registered
                && !r.irq_enabled && r.config == 0,
            r.keyboard@ == Seq::<u8>::empty() && r.mouse@ == Seq::<u8>::empty(),
            r.keyboard.dropped_spec() == 0 && r.mouse.dropped_spec() == 0,
    {
        Controller {
            controller: false,
            config: 0,
            keyboard_port: false,
            mouse_port: false,
            irq_registered: false,
            irq_enabled: false,
            keyboard: ByteQueue::new(),
            mouse: ByteQueue::new(),
        }
    }

    /// Records the outcome of initialisation.
    pub fn record_init(&mut self, result: Result<(u8, bool, bool), Error>) -> (r: InitResult)
        ensures
            r == init_result(result),
            result matches Ok((config, keyboard, mouse)) ==> final(self).controller && final(self).config == config && final(self).keyboard_port == keyboard && final(self).mouse_port
                == mouse,
            result is Err ==> !final(self).controller && !final(self).keyboard_port && !final(self).mouse_port && final(self).config == 0,
            !final(self).irq_registered && !final(self).irq_enabled,
            final(self).keyboard@ == Seq::<u8>::empty() && final(self).mouse@ == Seq::<u8>::empty(),
    {
        *self = Controller::new();
        match result {
            Ok((config, keyboard, mouse)) => {
                self.config = config;
                self.keyboard_port = keyboard;
                self.mouse_port = mouse;
                self.controller = true;
            },
            Err(_) => {},
        }
        init_result(result)
    }

    pub fn status(&self) -> (r: Status)
        ensures
            r == (Status {
                controller: self.controller,
                config: self.config,
                keyboard_port: self.keyboard_port,
                mouse_port: self.mouse_port,
                irq_registered: self.irq_registered,
                irq_enabled: self.irq_enabled,
                keyboard_dropped: self.keyboard.dropped_spec(),
                mouse_dropped: self.mouse.dropped_spec(),
            }),
    {
        Status {
            controller: self.controller,
            config: self.config,
            keyboard_port: self.keyboard_port,
            mouse_port: self.mouse_port,
            irq_registered: self.irq_registered,
            irq_enabled: self.irq_enabled,
            keyboard_dropped: self.keyboard.dropped(),
            mouse_dropped: self.mouse.dropped(),
        }
    }

    pub fn port_available(&self, port: Port) -> (r: bool)
        ensures
            r == (if port == Port::Keyboard {
                self.keyboard_port
            } else {
                self.mouse_port
            }),
    {
        match port {
            Port::Keyboard => self.keyboard_port,
            Port::Mouse => self.mouse_port,
        }
    }

    /// Files a byte the controller delivered under the port the status byte names,
    /// when that port works; otherwise the byte is discarded.
    pub fn deliver(&mut self, status: u8, byte: u8)
        ensures
            final(self).controller == old(self).controller && final(self).config == old(self).config && final(self).keyboard_port == old(self).keyboard_port && final(self).mouse_port == old(self).mouse_port,
            final(self).irq_registered == old(self).irq_registered && final(self).irq_enabled == old(self).irq_enabled,
            status & AUX_OUTPUT != 0 && old(self).mouse_port ==> final(self).keyboard == old(self).keyboard && final(self).mouse@ == (if old(self).mouse@.len() < QUEUE_CAPACITY - 1 {
                old(self).mouse@.push(byte)
            } else {
                old(self).mouse@
            }),
            status & AUX_OUTPUT == 0 && old(self).keyboard_port ==> final(self).mouse == old(self).mouse && final(self).keyboard@ == (if old(self).keyboard@.len() < QUEUE_CAPACITY
                - 1 {
                old(self).keyboard@.push(byte)
            } else {
                old(self).keyboard@
            }),
            !(if status & AUX_OUTPUT != 0 {
                old(self).mouse_port
            } else {
                old(self).keyboard_port
            }) ==> final(self).keyboard == old(self).keyboard && final(self).mouse == old(self).mouse,
    {
        let port = byte_source(status);
        if self.port_available(port) {
            match port {
                Port::Keyboard => {
                    self.keyboard.enqueue(byte);
                },
                Port::Mouse => {
                    self.mouse.enqueue(byte);
                },
            }
        }
    }

    pub fn pop_keyboard(&mut self) -> (r: Option<u8>)
        ensures
            old(self).keyboard@.len() == 0 ==> r is None && final(self).keyboard@ == old(self).keyboard@,
            old(self).keyboard@.len() > 0 ==> r == Some(old(self).keyboard@[0]) && final(self).keyboard@ == old(self).keyboard@.drop_first(),
            final(self).mouse == old(self).mouse,
    {
        self.keyboard.dequeue()
    }

    pub fn pop_mouse(&mut self) -> (r: Option<u8>)
        ensures
            old(self).mouse@.len() == 0 ==> r is None && final(self).mouse@ == old(self).mouse@,
            old(self).mouse@.len() > 0 ==> r == Some(old(self).mouse@[0]) && final(self).mouse@
                == old(self).mouse@.drop_first(),
            final(self).keyboard == old(self).keyboard,
    {
        self.mouse.dequeue()
    }

    /// Initialises the controller through `io` and records the outcome (see `initialize`
    /// and `record_init`). The caller has exclusive use of the controller, so it is never
    /// busy.
    pub fn init<I: Ps2Io>(&mut self, io: &mut I) -> (r: InitResult)
        ensures
            !final(self).irq_registered && !final(self).irq_enabled,
            r == InitResult::Ready <==> final(self).controller,
            final(self).controller ==> final(self).keyboard_port || final(self).mouse_port,
            r != InitResult::Ready ==> !final(self).keyboard_port && !final(self).mouse_port && final(self).config == 0,
    {
        let result = initialize(io);
        self.record_init(result)
    }

    /// Moves what the controller holds for the host into the queues of the ports it came
    /// from (the working ones), up to `IRQ_DRAIN_LIMIT` bytes.
    fn drain_to_queues<I: Ps2Io>(&mut self, io: &mut I)
        ensures
            flags_kept(*old(self), *final(self)),
            queues_grown(*old(self), *final(self)),
    {
        let mut count: usize = 0;
        while count < IRQ_DRAIN_LIMIT
            invariant
                count <= IRQ_DRAIN_LIMIT,
                flags_kept(*old(self), *self),
                queues_grown(*old(self), *self),
            decreases IRQ_DRAIN_LIMIT - count,
        {
            let status = io.read_status();
            if status & OUTPUT_FULL == 0 {
                break;
            }
            let byte = match io.read_data() {
                Some(b) => b,
                None => break,
            };
            let ghost before = *self;
            self.deliver(status, byte);
            proof {
                assert(before.keyboard@.is_prefix_of(self.keyboard@));
                assert(before.mouse@.is_prefix_of(self.mouse@));
            }
            count = count + 1;
        }
    }

    /// Files a byte that arrived for the other port while waiting on `port`.
    fn file_for_other(&mut self, port: Port, byte: u8)
        ensures
            flags_kept(*old(self), *final(self)),
            port is Keyboard ==> final(self).keyboard == old(self).keyboard && final(self).mouse@ == (if old(self).mouse@.len() < QUEUE_CAPACITY - 1 {
                old(self).mouse@.push(byte)
            } else {
                old(self).mouse@
            }),
            port is Mouse ==> final(self).mouse == old(self).mouse && final(self).keyboard@ == (if old(self).keyboard@.len() < QUEUE_CAPACITY - 1 {
                old(self).keyboard@.push(byte)
            } else {
                old(self).keyboard@
            }),
            queues_grown(*old(self), *final(self)),
    {
        match port {
            Port::Keyboard => {
                let _ = self.mouse.enqueue(byte);
            },
            Port::Mouse => {
                let _ = self.keyboard.enqueue(byte);
            },
        }
    }

    /// Waits, within the poll limit, for `port`'s device to answer, filing bytes from the
    /// other port in its queue.
    fn wait_for_device_byte<I: Ps2Io>(&mut self, io: &mut I, port: Port) -> (r: Result<u8, Error>)
        ensures
            flags_kept(*old(self), *final(self)),
            queues_grown(*old(self), *final(self)),
            r is Err ==> r == Err::<u8, Error>(Error::Timeout),
    {
        let mut polls: usize = 0;
        while polls < POLL_LIMIT
            invariant
                polls <= POLL_LIMIT,
                flags_kept(*old(self), *self),
                queues_grown(*old(self), *self),
            decreases POLL_LIMIT - polls,
        {
            let status = io.read_status();
            if status & OUTPUT_FULL != 0 {
                let byte = read_data(io)?;
                let from_mouse = status & AUX_OUTPUT != 0;
                if from_mouse != port.is_mouse() {
                    self.file_for_other(port, byte);
                } else {
                    return Ok(byte);
                }
            }
            polls = polls + 1;
        }
        Err(Error::Timeout)
    }

    /// Sends `command` to `port`'s device, resending when it asks, up to
    /// `COMMAND_RETRIES` times.
    fn send_locked<I: Ps2Io>(&mut self, io: &mut I, port: Port, command: u8) -> (r: Result<(), Error>)
        ensures
            flags_kept(*old(self), *final(self)),
            queues_grown(*old(self), *final(self)),
            r matches Err(e) ==> e == Error::Timeout || e == Error::UnexpectedResponse || e == Error::ResendLimit,
    {
        self.drain_to_queues(io);
        let mut attempt: usize = 0;
        while attempt < COMMAND_RETRIES
            invariant
                attempt <= COMMAND_RETRIES,
                flags_kept(*old(self), *self),
                queues_grown(*old(self), *self),
            decreases COMMAND_RETRIES - attempt,
        {
            if port.is_mouse() {
                controller_command(io, WRITE_SECOND_PORT)?;
            }
            write_data(io, command)?;
            let answer = self.wait_for_device_byte(io, port)?;
            match ack_action(answer) {
                AckAction::Accepted => return Ok(()),
                AckAction::Retry => {},
                AckAction::Unexpected => return Err(Error::UnexpectedResponse),
            }
            attempt = attempt + 1;
        }
        Err(Error::ResendLimit)
    }

    /// Sends a one-byte command to a working port's device and waits for its
    /// acknowledgement.
    pub fn send_device_command<I: Ps2Io>(&mut self, io: &mut I, port: Port, command: u8) -> (r: Result<
        (),
        &'static str,
    >)
        ensures
            flags_kept(*old(self), *final(self)),
            !old(self).port_available_spec(port) ==> r == Err::<(), &'static str>("ps/2 port unavailable")
                && *final(self) == *old(self),
            old(self).port_available_spec(port) ==> (r matches Err(m) ==> m == "ps/2 command timeout" || m
                == "ps/2 command resend limit" || m == "ps/2 unexpected response"),
    {
        if !self.port_available(port) {
            return Err("ps/2 port unavailable");
        }
        match self.send_locked(io, port, command) {
            Ok(()) => Ok(()),
            Err(e) => Err(command_error_message(e)),
        }
    }

    /// Sends a command and its data byte to a working port's device, each acknowledged.
    pub fn send_device_data<I: Ps2Io>(&mut self, io: &mut I, port: Port, command: u8, data: u8) -> (r: Result<
        (),
        &'static str,
    >)
        ensures
            flags_kept(*old(self), *final(self)),
            !old(self).port_available_spec(port) ==> r == Err::<(), &'static str>("ps/2 port unavailable")
                && *final(self) == *old(self),
            old(self).port_available_spec(port) ==> (r matches Err(m) ==> m == "ps/2 command timeout" || m
                == "ps/2 command resend limit" || m == "ps/2 unexpected response"),
    {
        if !self.port_available(port) {
            return Err("ps/2 port unavailable");
        }
        let result = match self.send_locked(io, port, command) {
            Ok(()) => self.send_locked(io, port, data),
            Err(e) => Err(e),
        };
        match result {
            Ok(()) => Ok(()),
            Err(e) => Err(command_error_message(e)),
        }
    }

    /// Asks a working port's device for its identity and gives the first byte of the
    /// answer.
    pub fn identify_device<I: Ps2Io>(&mut self, io: &mut I, port: Port) -> (r: Result<u8, &'static str>)
        ensures
            flags_kept(*old(self), *final(self)),
            !old(self).port_available_spec(port) ==> r == Err::<u8, &'static str>("ps/2 port unavailable")
                && *final(self) == *old(self),
            old(self).port_available_spec(port) ==> (r matches Err(m) ==> m == "ps/2 identify timeout" || m
                == "ps/2 identify resend limit" || m == "ps/2 identify response error"),
    {
        if !self.port_available(port) {
            return Err("ps/2 port unavailable");
        }
        let result = match self.send_locked(io, port, 0xf2) {
            Ok(()) => self.wait_for_device_byte(io, port),
            Err(e) => Err(e),
        };
        match result {
            Ok(byte) => Ok(byte),
            Err(e) => Err(identify_error_message(e)),
        }
    }

    /// Turns on the interrupts of the working ports in the configuration byte; the caller
    /// then unmasks lines 1 and 12 for the keyboard and mouse. Nothing to do without a
    /// controller; false when the configuration cannot be read or written.
    pub fn enable_interrupts<I: Ps2Io>(&mut self, io: &mut I) -> (r: bool)
        ensures
            !old(self).controller ==> r && *final(self) == *old(self),
            r && old(self).controller ==> final(self).irq_enabled && exists|read: u8|
                final(self).config == spec_interrupt_config(read, old(self).keyboard_port, old(self).mouse_port),
            !r ==> final(self).irq_enabled == old(self).irq_enabled,
            final(self).controller == old(self).controller && final(self).keyboard_port == old(self).keyboard_port
                && final(self).mouse_port == old(self).mouse_port && final(self).irq_registered
                == old(self).irq_registered,
            final(self).keyboard == old(self).keyboard && final(self).mouse == old(self).mouse,
    {
        if !self.controller {
            return true;
        }
        let read = match read_config(io) {
            Ok(c) => c,
            Err(_) => return false,
        };
        let config = interrupt_config(read, self.keyboard_port, self.mouse_port);
        if write_config(io, config).is_err() {
            return false;
        }
        self.config = config;
        self.irq_enabled = true;
        true
    }

    pub open spec fn port_available_spec(&self, port: Port) -> bool {
        if port == Port::Keyboard {
            self.keyboard_port
        } else {
            self.mouse_port
        }
    }
}

/// The controller's flags are as they were (the queues may have grown).
/// Bytes were only appended to the two queues from `a` to `b`.
pub open spec fn queues_grown(a: Controller, b: Controller) -> bool {
    &&& a.keyboard@.is_prefix_of(b.keyboard@)
    &&& a.mouse@.is_prefix_of(b.mouse@)
}

pub open spec fn flags_kept(a: Controller, b: Controller) -> bool {
    &&& a.controller == b.controller
    &&& a.config == b.config
    &&& a.keyboard_port == b.keyboard_port
    &&& a.mouse_port == b.mouse_port
    &&& a.irq_registered == b.irq_registered
    &&& a.irq_enabled == b.irq_enabled
}

/// Checks the answers to commands and the ring's wrap-around.
pub fn contract_self_check() {
    let a = ack_action(ACK);
    assert(a == AckAction::Accepted);
    let a = ack_action(RESEND);
    assert(a == AckAction::Retry);
    let a = ack_action(0);
    assert(a == AckAction::Unexpected);
    let i = next_index(QUEUE_CAPACITY - 1);
    assert(i == 0);
    let i = next_index(0);
    assert(i == 1);
}

} // verus!
