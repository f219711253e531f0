//! The register protocol of the CCS811 air-quality sensor on the mote's I2C bus.
//!
//! The bus itself belongs to the caller. Each procedure of the driver is a
//! small state machine: it names the bus operation to perform next, and the
//! caller performs it and hands back what the bus answered. The decisions that
//! the driver takes between two operations are all here.
use vstd::prelude::*;
use vstd::string::StringSliceAdditionalSpecFns;
use crate::text::{
    binary_digits, binary_value, lemma_binary_digits_read_back, push_all, push_binary8, two_pow,
};

verus! {

/// Bootloader command: verify the application firmware.
pub const APP_VERIFY: u8 = 0xF3;

/// Bootloader command: start the application firmware.
pub const APP_START: u8 = 0xF4;

/// Status register.
pub const STATUS_REG: u8 = 0x00;

/// Measurement mode and conditions register.
pub const MEAS_MODE_REG: u8 = 0x01;

/// Algorithm result register: eCO2, TVOC, status, error id and raw data.
pub const ALG_RESULT_REG: u8 = 0x02;

/// Raw data register.
pub const RAW_DATA_REG: u8 = 0x03;

/// NTC register.
pub const NTC_REG: u8 = 0x06;

/// Hardware id register; the CCS811 answers 0x81.
pub const HW_ID_REG: u8 = 0x20;

/// Error id register, to read when the status reports an error.
pub const ERROR_ID_REG: u8 = 0xE0;

/// The number of 7-bit I2C addresses; the device search probes `0..ADDRESS_SPACE`.
pub const ADDRESS_SPACE: u8 = 128;

/// The number of bytes read from the algorithm result register.
pub const ALG_RESULT_LEN: usize = 8;

/// The flags of the status register.
#[derive(Clone, Copy, Debug, PartialEq, Eq, Structural)]
pub enum Status {
    /// The firmware is in application mode and can take measurements.
    FwMode,
    /// Valid application firmware is loaded.
    AppValid,
    /// A new data sample is ready.
    DataReady,
    /// An error occurred; the error id register tells which.
    Error,
}

impl Status {
    /// The bit of the status register that the flag occupies.
    pub open spec fn mask(self) -> u8 {
        match self {
            Status::FwMode => 0x80,
            Status::AppValid => 0x10,
            Status::DataReady => 0x08,
            Status::Error => 0x01,
        }
    }

    /// The bit of the status register that the flag occupies.
    pub fn bits(self) -> (b: u8)
        ensures
            b == self.mask(),
    {
        match self {
            Status::FwMode => 0x80,
            Status::AppValid => 0x10,
            Status::DataReady => 0x08,
            Status::Error => 0x01,
        }
    }

    /// Whether the flag is set in a status byte.
    pub open spec fn is_set_in(self, status: u8) -> bool {
        status & self.mask() != 0
    }
}

/// The settings of the measurement mode register.
#[derive(Clone, Copy, Debug, PartialEq, Eq, Structural)]
pub enum MeasurementDriveMode {
    /// Idle: no measurements.
    Mode0Idle,
    /// A measurement every second.
    Mode11S,
    /// A measurement every 10 seconds.
    Mode210S,
    /// A measurement every 60 seconds.
    Mode360S,
    /// A measurement every 250 ms (raw data only).
    Mode4250MS,
    /// The bit that enables the data-ready interrupt.
    IRQEnable,
}

impl MeasurementDriveMode {
    /// The bits of the measurement mode register that the setting stands for.
    pub open spec fn mask(self) -> u8 {
        match self {
            MeasurementDriveMode::Mode0Idle => 0x00,
            MeasurementDriveMode::Mode11S => 0x10,
            MeasurementDriveMode::Mode210S => 0x20,
            MeasurementDriveMode::Mode360S => 0x30,
            MeasurementDriveMode::Mode4250MS => 0x40,
            MeasurementDriveMode::IRQEnable => 0x08,
        }
    }

    /// The bits of the measurement mode register that the setting stands for.
    pub fn bits(self) -> (b: u8)
        ensures
            b == self.mask(),
    {
        match self {
            MeasurementDriveMode::Mode0Idle => 0x00,
            MeasurementDriveMode::Mode11S => 0x10,
            MeasurementDriveMode::Mode210S => 0x20,
            MeasurementDriveMode::Mode360S => 0x30,
            MeasurementDriveMode::Mode4250MS => 0x40,
            MeasurementDriveMode::IRQEnable => 0x08,
        }
    }
}

/// The failures of the driver.
#[derive(Clone, Copy, Debug, PartialEq, Eq, Structural)]
pub enum Errors {
    /// No address on the bus answered the device search.
    NoDeviceFound,
    /// The sensor had no new sample to give.
    DataNotReady,
}

/// The driver's state of one CCS811: the bus address it answers at.
pub struct CO2Sensor {
    dev_addr: u8,
    interrupt_active: bool,
}

/// A read of `len` bytes from `register` of the device at `addr`
/// (a write of the register's address, then a read).
#[derive(Clone, Copy, Debug, PartialEq, Eq, Structural)]
pub struct RegisterRead {
    pub addr: u8,
    pub register: u8,
    pub len: usize,
}

impl CO2Sensor {
    /// The bus address of the device.
    pub closed spec fn addr(&self) -> u8 {
        self.dev_addr
    }

    /// Whether the driver has enabled the data-ready interrupt.
    pub closed spec fn interrupt(&self) -> bool {
        self.interrupt_active
    }

    /// A driver for a device not yet searched for: address 0, interrupt off.
    pub fn new() -> (s: Self)
        ensures
            s.addr() == 0,
            !s.interrupt(),
    {
        CO2Sensor { dev_addr: 0, interrupt_active: false }
    }

    /// The bus address of the device.
    pub fn dev_addr(&self) -> (a: u8)
        ensures
            a == self.addr(),
    {
        self.dev_addr
    }

    /// Whether the driver has enabled the data-ready interrupt.
    pub fn interrupt_active(&self) -> (b: bool)
        ensures
            b == self.interrupt(),
    {
        self.interrupt_active
    }
}

// ------------------------------------------------------------------------
// Device search
// ------------------------------------------------------------------------

/// The next move of the device search.
#[derive(Clone, Copy, Debug, PartialEq, Eq)]
pub enum FindDevStep {
    /// Read one byte from this address and report whether the device answered.
    Probe(u8),
    /// The search is over: `Ok(true)` when a device answered, else the error.
    Done(Result<bool, Errors>),
}

/// What the device search does next, after the probe `probed` (the address
/// probed and whether it answered), or at the start when `probed` is `None`.
pub open spec fn find_dev_next(probed: Option<(u8, bool)>) -> FindDevStep {
    match probed {
        None => FindDevStep::Probe(0),
        Some((addr, responded)) => if responded {
            FindDevStep::Done(Ok(true))
        } else if addr + 1 < ADDRESS_SPACE {
            FindDevStep::Probe((addr + 1) as u8)
        } else {
            FindDevStep::Done(Err(Errors::NoDeviceFound))
        },
    }
}

/// The device address that the driver holds after the probe `probed`.
pub open spec fn find_dev_addr(old_addr: u8, probed: Option<(u8, bool)>) -> u8 {
    match probed {
        Some((addr, true)) => addr,
        _ => old_addr,
    }
}

impl CO2Sensor {
    /// One step of the search for the device: probes the addresses from 0 up,
    /// stops at the first that answers and keeps it as the device's address,
    /// and fails with `NoDeviceFound` when none below `ADDRESS_SPACE` answers.
    pub fn find_dev(&mut self, probed: Option<(u8, bool)>) -> (step: FindDevStep)
        ensures
            step == find_dev_next(probed),
            final(self).addr() == find_dev_addr(old(self).addr(), probed),
            final(self).interrupt() == old(self).interrupt(),
    {
        match probed {
            None => FindDevStep::Probe(0),
            Some((addr, responded)) => {
                if responded {
                    self.dev_addr = addr;
                    FindDevStep::Done(Ok(true))
                } else if addr < ADDRESS_SPACE - 1 {
                    FindDevStep::Probe(addr + 1)
                } else {
                    FindDevStep::Done(Err(Errors::NoDeviceFound))
                }
            },
        }
    }
}

/// The search driven for `fuel` steps against a bus on which the address `a`
/// answers exactly when `responds[a]` (an address beyond `responds` never answers):
/// the device address held, and the step reached.
pub open spec fn run_find_dev(
    responds: Seq<bool>,
    addr: u8,
    step: FindDevStep,
    fuel: nat,
) -> (u8, FindDevStep)
    decreases fuel,
{
    if fuel == 0 {
        (addr, step)
    } else {
        match step {
            FindDevStep::Probe(a) => {
                let answered = a < responds.len() && responds[a as int];
                run_find_dev(
                    responds,
                    find_dev_addr(addr, Some((a, answered))),
                    find_dev_next(Some((a, answered))),
                    (fuel - 1) as nat,
                )
            },
            FindDevStep::Done(_) => (addr, step),
        }
    }
}

/// Whether some address below 128 answers.
pub open spec fn some_answers(responds: Seq<bool>) -> bool {
    exists|b: int| 0 <= b < ADDRESS_SPACE && #[trigger] responds[b]
}

/// The search from the probe of `a` on, where no address below `a` answers.
proof fn lemma_find_dev_from(responds: Seq<bool>, addr: u8, a: u8, fuel: nat)
    requires
        responds.len() == ADDRESS_SPACE,
        a < ADDRESS_SPACE,
        fuel >= ADDRESS_SPACE - a,
        forall|b: int| 0 <= b < a ==> !#[trigger] responds[b],
    ensures
        ({
            let (held, step) = run_find_dev(responds, addr, FindDevStep::Probe(a), fuel);
            &&& some_answers(responds) ==> {
                &&& step == FindDevStep::Done(Ok(true))
                &&& held < ADDRESS_SPACE
                &&& responds[held as int]
                &&& forall|b: int| 0 <= b < held ==> !#[trigger] responds[b]
            }
            &&& !some_answers(responds) ==> {
                &&& step == FindDevStep::Done(Err(Errors::NoDeviceFound))
                &&& held == addr
            }
        }),
    decreases ADDRESS_SPACE - a,
{
    let answered = responds[a as int];
    let next = find_dev_next(Some((a, answered)));
    let next_addr = find_dev_addr(addr, Some((a, answered)));
    assert(run_find_dev(responds, addr, FindDevStep::Probe(a), fuel) == run_find_dev(
        responds,
        next_addr,
        next,
        (fuel - 1) as nat,
    ));
    if answered {
        assert(some_answers(responds));
        assert((fuel - 1) as nat > 0 ==> run_find_dev(responds, next_addr, next, (fuel - 1) as nat)
            == (next_addr, next));
    } else if a + 1 < ADDRESS_SPACE {
        let a1 = (a + 1) as u8;
        assert forall|b: int| 0 <= b < a1 implies !#[trigger] responds[b] by {
            if b < a {
            } else {
                assert(b == a);
            }
        }
        lemma_find_dev_from(responds, addr, a1, (fuel - 1) as nat);
    } else {
        assert(!some_answers(responds)) by {
            if some_answers(responds) {
                let b = choose|b: int| 0 <= b < ADDRESS_SPACE && #[trigger] responds[b];
                if b < a {
                } else {
                    assert(b == a);
                }
            }
        }
        assert((fuel - 1) as nat > 0 ==> run_find_dev(responds, next_addr, next, (fuel - 1) as nat)
            == (next_addr, next));
    }
}

/// Law: driving the device search from its start against any bus finds the
/// lowest address below 128 that answers and keeps it as the device's address,
/// and fails with `NoDeviceFound`, keeping the address held before, exactly
/// when no such address answers.
pub proof fn lemma_find_dev_finds_first(responds: Seq<bool>, addr: u8)
    requires
        responds.len() == ADDRESS_SPACE,
    ensures
        ({
            let (held, step) = run_find_dev(responds, addr, find_dev_next(None), 128);
            &&& some_answers(responds) ==> {
                &&& step == FindDevStep::Done(Ok(true))
                &&& held < ADDRESS_SPACE
                &&& responds[held as int]
                &&& forall|b: int| 0 <= b < held ==> !#[trigger] responds[b]
            }
            &&& !some_answers(responds) ==> {
                &&& step == FindDevStep::Done(Err(Errors::NoDeviceFound))
                &&& held == addr
            }
        }),
{
    lemma_find_dev_from(responds, addr, 0, 128);
}

// ------------------------------------------------------------------------
// Status check, with the start of the application firmware
// ------------------------------------------------------------------------

/// The next move of a status check.
#[derive(Clone, Copy, Debug, PartialEq, Eq, Structural)]
pub enum StatusStep {
    /// Read one byte from `register` of the device at `addr` and hand it back.
    ReadRegister { addr: u8, register: u8 },
    /// Write the one-byte `command` to the device at `addr`, then report it written.
    WriteCommand { addr: u8, command: u8 },
    /// Report the sensor error `id` (see `error_message`), then report it reported.
    ReportError { id: u8 },
    /// The check is complete.
    Done,
}

/// What a status check waits for.
#[derive(Clone, Copy, Debug, PartialEq, Eq, Structural)]
pub enum StatusWait {
    /// The status byte.
    StatusByte,
    /// The end of the write of the application start command.
    CommandWritten,
    /// The error id byte.
    ErrorId,
    /// The end of the report of an error.
    ErrorReported,
    /// Nothing: the check is complete.
    Finished,
}

/// The abstract state of a status check.
pub struct StatusCheckState {
    /// The device's bus address.
    pub addr: u8,
    /// The status bytes of the checks that started the application firmware and
    /// resume, once the nested check is complete, with their error flag; innermost last.
    pub open: Seq<u8>,
    pub wait: StatusWait,
    pub step: StatusStep,
}

/// A status check in progress (`read_status`, or `app_start` followed by it).
pub struct StatusCheck {
    addr: u8,
    open: Vec<u8>,
    wait: StatusWait,
    step: StatusStep,
}

/// Whether `step` is an operation that a status check of the device at `addr` may
/// ask for: a read of its status or error id register, or the write of the
/// application start command, each addressed to `addr`.
pub open spec fn addressed_to(step: StatusStep, addr: u8) -> bool {
    match step {
        StatusStep::ReadRegister { addr: a, register } => a == addr && (register == STATUS_REG
            || register == ERROR_ID_REG),
        StatusStep::WriteCommand { addr: a, command } => a == addr && command == APP_START,
        _ => true,
    }
}

impl StatusCheck {
    /// Every operation that the check asks for goes to its device.
    #[verifier::type_invariant]
    spec fn well_addressed(self) -> bool {
        addressed_to(self.step, self.addr)
    }
}

impl View for StatusCheck {
    type V = StatusCheckState;

    closed spec fn view(&self) -> StatusCheckState {
        StatusCheckState { addr: self.addr, open: self.open@, wait: self.wait, step: self.step }
    }
}

/// The state in which the checks whose status bytes are `open` resume, the
/// innermost first: the first whose status has the error flag reads the error
/// id; when none has it, the check is complete.
pub open spec fn close_checks(addr: u8, open: Seq<u8>) -> StatusCheckState
    decreases open.len(),
{
    if open.len() == 0 {
        StatusCheckState { addr, open, wait: StatusWait::Finished, step: StatusStep::Done }
    } else if Status::Error.is_set_in(open.last()) {
        StatusCheckState {
            addr,
            open: open.drop_last(),
            wait: StatusWait::ErrorId,
            step: StatusStep::ReadRegister { addr, register: ERROR_ID_REG },
        }
    } else {
        close_checks(addr, open.drop_last())
    }
}

/// Whether a status byte shows application firmware: running (application
/// mode), or loaded and valid (boot mode). Without it the sensor cannot be used.
pub open spec fn has_firmware(status: u8) -> bool {
    Status::FwMode.is_set_in(status) || Status::AppValid.is_set_in(status)
}

/// The state after the status byte `status` arrived: in application mode the
/// check goes on to its error flag; in boot mode (with valid firmware) it starts
/// the application and checks the status again.
pub open spec fn after_status(s: StatusCheckState, status: u8) -> StatusCheckState {
    if Status::FwMode.is_set_in(status) {
        close_checks(s.addr, s.open.push(status))
    } else {
        StatusCheckState {
            addr: s.addr,
            open: s.open.push(status),
            wait: StatusWait::CommandWritten,
            step: StatusStep::WriteCommand { addr: s.addr, command: APP_START },
        }
    }
}

/// Whether a status byte shows application firmware, running or loaded.
pub fn firmware_loaded(status: u8) -> (b: bool)
    ensures
        b == has_firmware(status),
{
    status & Status::FwMode.bits() != 0 || status & Status::AppValid.bits() != 0
}

/// The state after a byte arrived: the status byte, or the error id; in any
/// other state a byte changes nothing.
pub open spec fn status_received(s: StatusCheckState, byte: u8) -> StatusCheckState {
    match s.wait {
        StatusWait::StatusByte => after_status(s, byte),
        StatusWait::ErrorId => StatusCheckState {
            addr: s.addr,
            open: s.open,
            wait: StatusWait::ErrorReported,
            step: StatusStep::ReportError { id: byte },
        },
        _ => s,
    }
}

/// The state after the start command was written: the status is read again.
pub open spec fn status_written(s: StatusCheckState) -> StatusCheckState {
    match s.wait {
        StatusWait::CommandWritten => StatusCheckState {
            addr: s.addr,
            open: s.open,
            wait: StatusWait::StatusByte,
            step: StatusStep::ReadRegister { addr: s.addr, register: STATUS_REG },
        },
        _ => s,
    }
}

/// The state after an error was reported: the checks still open resume.
pub open spec fn status_reported(s: StatusCheckState) -> StatusCheckState {
    match s.wait {
        StatusWait::ErrorReported => close_checks(s.addr, s.open),
        _ => s,
    }
}

impl StatusCheck {
    /// What the check asks for now.
    pub fn step(&self) -> (st: StatusStep)
        ensures
            st == self@.step,
            addressed_to(st, self@.addr),
    {
        proof {
            use_type_invariant(self);
        }
        self.step
    }

    /// Resumes the open checks, innermost first.
    fn close(&mut self)
        ensures
            final(self)@ == close_checks(old(self)@.addr, old(self)@.open),
            addressed_to(final(self)@.step, old(self)@.addr),
            final(self)@.addr == old(self)@.addr,
    {
        proof {
            use_type_invariant(&*self);
            lemma_close_checks_addressed(self.addr, self.open@);
        }
        let ghost start = self@;
        let mut open: Vec<u8> = Vec::new();
        std::mem::swap(&mut open, &mut self.open);
        loop
            invariant
                start == old(self)@,
                self.addr == start.addr,
                addressed_to(self.step, self.addr),
                close_checks(start.addr, start.open) == close_checks(self.addr, open@),
            decreases open@.len(),
        {
            match open.pop() {
                None => {
                    self.wait = StatusWait::Finished;
                    self.step = StatusStep::Done;
                    self.open = open;
                    assert(self.open@ =~= Seq::<u8>::empty());
                    return;
                },
                Some(status) => {
                    if status & Status::Error.bits() != 0 {
                        self.wait = StatusWait::ErrorId;
                        self.step = StatusStep::ReadRegister {
                            addr: self.addr,
                            register: ERROR_ID_REG,
                        };
                        self.open = open;
                        return;
                    }
                },
            }
        }
    }

    /// Adds a status byte to the checks that resume later.
    fn push_open(&mut self, status: u8)
        ensures
            final(self)@ == (StatusCheckState { open: old(self)@.open.push(status), ..old(self)@ }),
    {
        proof {
            use_type_invariant(&*self);
        }
        let mut open: Vec<u8> = Vec::new();
        std::mem::swap(&mut open, &mut self.open);
        open.push(status);
        self.open = open;
    }

    /// Hands the check the byte it asked for (the status byte or the error id).
    /// A byte that the check does not wait for changes nothing. A status byte must
    /// show application firmware (see `firmware_loaded`): without it the sensor
    /// cannot be used, and the check cannot go on.
    pub fn received(&mut self, byte: u8) -> (st: StatusStep)
        requires
            old(self)@.wait == StatusWait::StatusByte ==> has_firmware(byte),
        ensures
            final(self)@ == status_received(old(self)@, byte),
            st == final(self)@.step,
            final(self)@.addr == old(self)@.addr,
            addressed_to(st, old(self)@.addr),
            old(self)@.wait == StatusWait::StatusByte && !Status::FwMode.is_set_in(byte) ==> st == (
            StatusStep::WriteCommand { addr: old(self)@.addr, command: APP_START }),
            old(self)@.wait == StatusWait::StatusByte && Status::FwMode.is_set_in(byte)
                && Status::Error.is_set_in(byte) ==> st == (StatusStep::ReadRegister {
                addr: old(self)@.addr,
                register: ERROR_ID_REG,
            }),
            old(self)@.wait == StatusWait::ErrorId ==> st == (StatusStep::ReportError { id: byte }),
    {
        proof {
            use_type_invariant(&*self);
        }
        match self.wait {
            StatusWait::StatusByte => {
                if byte & Status::FwMode.bits() != 0 {
                    self.push_open(byte);
                    self.close();
                } else {
                    self.push_open(byte);
                    self.wait = StatusWait::CommandWritten;
                    self.step = StatusStep::WriteCommand { addr: self.addr, command: APP_START };
                }
            },
            StatusWait::ErrorId => {
                self.wait = StatusWait::ErrorReported;
                self.step = StatusStep::ReportError { id: byte };
            },
            _ => {},
        }
        self.step
    }

    /// Tells the check that the start command was written.
    pub fn written(&mut self) -> (st: StatusStep)
        ensures
            final(self)@ == status_written(old(self)@),
            st == final(self)@.step,
            final(self)@.addr == old(self)@.addr,
            addressed_to(st, old(self)@.addr),
            old(self)@.wait == StatusWait::CommandWritten ==> st == (StatusStep::ReadRegister {
                addr: old(self)@.addr,
                register: STATUS_REG,
            }),
    {
        proof {
            use_type_invariant(&*self);
        }
        match self.wait {
            StatusWait::CommandWritten => {
                self.wait = StatusWait::StatusByte;
                self.step = StatusStep::ReadRegister { addr: self.addr, register: STATUS_REG };
            },
            _ => {},
        }
        self.step
    }

    /// Tells the check that the error it asked to report was reported.
    pub fn reported(&mut self) -> (st: StatusStep)
        ensures
            final(self)@ == status_reported(old(self)@),
            st == final(self)@.step,
            final(self)@.addr == old(self)@.addr,
            addressed_to(st, old(self)@.addr),
    {
        proof {
            use_type_invariant(&*self);
        }
        match self.wait {
            StatusWait::ErrorReported => {
                self.close();
            },
            _ => {},
        }
        self.step
    }
}

impl CO2Sensor {
    /// Starts a check of the sensor's status: read the status register; in
    /// application mode report an error if the status flags one; in boot mode
    /// with valid firmware start the application and check again.
    pub fn read_status(&self) -> (c: StatusCheck)
        ensures
            c@ == (StatusCheckState {
                addr: self.addr(),
                open: Seq::empty(),
                wait: StatusWait::StatusByte,
                step: StatusStep::ReadRegister { addr: self.addr(), register: STATUS_REG },
            }),
    {
        let c = StatusCheck {
            addr: self.dev_addr,
            open: Vec::new(),
            wait: StatusWait::StatusByte,
            step: StatusStep::ReadRegister { addr: self.dev_addr, register: STATUS_REG },
        };
        assert(c@.open =~= Seq::<u8>::empty());
        c
    }

    /// Starts the application firmware: write the start command, then check the status.
    pub fn app_start(&self) -> (c: StatusCheck)
        ensures
            c@ == (StatusCheckState {
                addr: self.addr(),
                open: Seq::empty(),
                wait: StatusWait::CommandWritten,
                step: StatusStep::WriteCommand { addr: self.addr(), command: APP_START },
            }),
    {
        let c = StatusCheck {
            addr: self.dev_addr,
            open: Vec::new(),
            wait: StatusWait::CommandWritten,
            step: StatusStep::WriteCommand { addr: self.dev_addr, command: APP_START },
        };
        assert(c@.open =~= Seq::<u8>::empty());
        c
    }
}

/// Resuming the open checks keeps the device and asks only for its error id register.
proof fn lemma_close_checks_addressed(addr: u8, open: Seq<u8>)
    ensures
        close_checks(addr, open).addr == addr,
        addressed_to(close_checks(addr, open).step, addr),
    decreases open.len(),
{
    if open.len() > 0 && !Status::Error.is_set_in(open.last()) {
        lemma_close_checks_addressed(addr, open.drop_last());
    }
}

/// Law: a status check stays with its device. Whatever it is handed, every bus
/// operation that it asks for next is addressed to the device it was started
/// for: a read of the status or error id register, or the application start
/// command. Boot mode asks for the start command, and once the command is
/// written the status is read from the device again.
pub proof fn lemma_status_check_addressed(s: StatusCheckState, byte: u8)
    requires
        addressed_to(s.step, s.addr),
        s.wait == StatusWait::StatusByte ==> has_firmware(byte),
    ensures
        status_received(s, byte).addr == s.addr,
        addressed_to(status_received(s, byte).step, s.addr),
        status_written(s).addr == s.addr,
        addressed_to(status_written(s).step, s.addr),
        status_reported(s).addr == s.addr,
        addressed_to(status_reported(s).step, s.addr),
        s.wait == StatusWait::StatusByte && !Status::FwMode.is_set_in(byte) ==> status_received(
            s,
            byte,
        ).step == (StatusStep::WriteCommand { addr: s.addr, command: APP_START }),
        s.wait == StatusWait::CommandWritten ==> status_written(s).step == (
        StatusStep::ReadRegister { addr: s.addr, register: STATUS_REG }),
{
    lemma_close_checks_addressed(s.addr, s.open);
    lemma_close_checks_addressed(s.addr, s.open.push(byte));
}

/// Whether some status byte in `open` flags an error.
pub open spec fn some_error_flagged(open: Seq<u8>) -> bool {
    exists|i: int| 0 <= i < open.len() && Status::Error.is_set_in(#[trigger] open[i])
}

/// Law: when the nested checks resume, the error id is read exactly when some
/// check still open had the error flag in its status byte, and for the innermost
/// such check (the checks inside it are done); otherwise the whole check is complete.
pub proof fn lemma_close_checks_reads_flagged(addr: u8, open: Seq<u8>)
    ensures
        some_error_flagged(open) ==> {
            let c = close_checks(addr, open);
            &&& c.wait == StatusWait::ErrorId
            &&& c.step == (StatusStep::ReadRegister { addr, register: ERROR_ID_REG })
            &&& c.open.len() < open.len()
            &&& Status::Error.is_set_in(open[c.open.len() as int])
            &&& c.open == open.subrange(0, c.open.len() as int)
            &&& forall|j: int|
                c.open.len() < j < open.len() ==> !Status::Error.is_set_in(#[trigger] open[j])
        },
        !some_error_flagged(open) ==> close_checks(addr, open) == (StatusCheckState {
            addr,
            open: Seq::empty(),
            wait: StatusWait::Finished,
            step: StatusStep::Done,
        }),
    decreases open.len(),
{
    if open.len() == 0 {
        assert(open =~= Seq::<u8>::empty());
    } else {
        let rest = open.drop_last();
        lemma_close_checks_reads_flagged(addr, rest);
        if Status::Error.is_set_in(open.last()) {
            assert(some_error_flagged(open)) by {
                assert(Status::Error.is_set_in(open[open.len() - 1]));
            }
            assert(rest =~= open.subrange(0, rest.len() as int));
        } else {
            if some_error_flagged(open) {
                let i = choose|i: int| 0 <= i < open.len() && Status::Error.is_set_in(#[trigger] open[i]);
                assert(i < open.len() - 1);
                assert(rest[i] == open[i]);
                assert(some_error_flagged(rest));
                let c = close_checks(addr, rest);
                assert(open[c.open.len() as int] == rest[c.open.len() as int]);
                assert(c.open =~= open.subrange(0, c.open.len() as int));
                assert forall|j: int| c.open.len() < j < open.len() implies !Status::Error.is_set_in(
                    #[trigger] open[j],
                ) by {
                    if j < open.len() - 1 {
                        assert(open[j] == rest[j]);
                    }
                }
            } else {
                assert(!some_error_flagged(rest)) by {
                    if some_error_flagged(rest) {
                        let i = choose|i: int| 0 <= i < rest.len() && Status::Error.is_set_in(#[trigger] rest[i]);
                        assert(open[i] == rest[i]);
                    }
                }
            }
        }
    }
}

/// Law: a finished status check stays as it is, whatever it is handed.
pub proof fn lemma_status_check_final(s: StatusCheckState, byte: u8)
    requires
        s.wait == StatusWait::Finished,
    ensures
        status_received(s, byte) == s,
        status_written(s) == s,
        status_reported(s) == s,
{
}

/// Law: the start command is written only for a status byte in boot mode with
/// valid firmware, and the error id is read only for a status whose error flag is set.
pub proof fn lemma_status_byte_decides(s: StatusCheckState, status: u8)
    requires
        s.wait == StatusWait::StatusByte,
        has_firmware(status),
    ensures
        status_received(s, status).step is WriteCommand <==> (!Status::FwMode.is_set_in(status)
            && Status::AppValid.is_set_in(status)),
        Status::FwMode.is_set_in(status) && Status::Error.is_set_in(status) ==> status_received(
            s,
            status,
        ).step == (StatusStep::ReadRegister { addr: s.addr, register: ERROR_ID_REG }),
        Status::FwMode.is_set_in(status) && !Status::Error.is_set_in(status) ==> status_received(
            s,
            status,
        ) == close_checks(s.addr, s.open),
{
    if Status::FwMode.is_set_in(status) {
        assert(s.open.push(status).drop_last() =~= s.open);
        lemma_close_checks_step(s.addr, s.open.push(status));
    }
}

/// Resuming never writes a command.
proof fn lemma_close_checks_step(addr: u8, open: Seq<u8>)
    ensures
        close_checks(addr, open).step == StatusStep::Done || close_checks(addr, open).step == (
        StatusStep::ReadRegister { addr, register: ERROR_ID_REG }),
    decreases open.len(),
{
    if open.len() > 0 && !Status::Error.is_set_in(open.last()) {
        lemma_close_checks_step(addr, open.drop_last());
    }
}

// ------------------------------------------------------------------------
// Measurement mode configuration
// ------------------------------------------------------------------------

/// The byte that selects `mode` in the measurement mode register, with the
/// data-ready interrupt bit added when `interrupt` is asked for.
pub open spec fn configuration_byte(mode: MeasurementDriveMode, interrupt: bool) -> u8 {
    if interrupt {
        mode.mask() | MeasurementDriveMode::IRQEnable.mask()
    } else {
        mode.mask()
    }
}

/// The next move of a measurement mode configuration.
#[derive(Clone, Copy, Debug, PartialEq, Eq, Structural)]
pub enum ConfigStep {
    /// Read one byte from `register` of the device at `addr` and hand it back.
    ReadRegister { addr: u8, register: u8 },
    /// Write `value` to `register` of the device at `addr` (one transaction of the
    /// register's address, then the value), then report it written.
    WriteRegister { addr: u8, register: u8, value: u8 },
    /// The configuration is over; `confirmed` tells whether the register read back
    /// shares a bit with the configuration byte (else it failed to configure).
    Done { confirmed: bool },
}

/// What a configuration waits for.
#[derive(Clone, Copy, Debug, PartialEq, Eq, Structural)]
pub enum ConfigWait {
    /// The register's present value.
    Current,
    /// The end of the write.
    Written,
    /// The register's value after the configuration.
    Readback,
    /// Nothing: the configuration is over.
    Finished,
}

/// A measurement mode configuration in progress (`config_i2c`).
#[derive(Clone, Copy, Debug, PartialEq, Eq, Structural)]
pub struct ConfigSetup {
    /// The device's bus address.
    pub addr: u8,
    /// The byte that the configuration writes.
    pub configuration: u8,
    pub wait: ConfigWait,
    pub step: ConfigStep,
}

/// The configuration after a byte of the register arrived: the present value
/// decides whether to write (only when it shares a bit with the configuration
/// byte); the value read back decides whether the configuration is confirmed.
pub open spec fn config_received(c: ConfigSetup, byte: u8) -> ConfigSetup {
    match c.wait {
        ConfigWait::Current => if byte & c.configuration != 0 {
            ConfigSetup {
                wait: ConfigWait::Written,
                step: ConfigStep::WriteRegister {
                    addr: c.addr,
                    register: MEAS_MODE_REG,
                    value: c.configuration,
                },
                ..c
            }
        } else {
            ConfigSetup {
                wait: ConfigWait::Readback,
                step: ConfigStep::ReadRegister { addr: c.addr, register: MEAS_MODE_REG },
                ..c
            }
        },
        ConfigWait::Readback => ConfigSetup {
            wait: ConfigWait::Finished,
            step: ConfigStep::Done { confirmed: byte & c.configuration != 0 },
            ..c
        },
        _ => c,
    }
}

/// The configuration after the write: the register is read back.
pub open spec fn config_written(c: ConfigSetup) -> ConfigSetup {
    match c.wait {
        ConfigWait::Written => ConfigSetup {
            wait: ConfigWait::Readback,
            step: ConfigStep::ReadRegister { addr: c.addr, register: MEAS_MODE_REG },
            ..c
        },
        _ => c,
    }
}

impl CO2Sensor {
    /// Starts the configuration of the measurement mode: `mode`, with the
    /// data-ready interrupt when `interrupt` holds. The register's present value is read first.
    pub fn config_i2c(&self, mode: MeasurementDriveMode, interrupt: bool) -> (c: ConfigSetup)
        ensures
            c == (ConfigSetup {
                addr: self.addr(),
                configuration: configuration_byte(mode, interrupt),
                wait: ConfigWait::Current,
                step: ConfigStep::ReadRegister { addr: self.addr(), register: MEAS_MODE_REG },
            }),
    {
        let mut configuration: u8 = mode.bits();
        if interrupt {
            configuration = configuration | MeasurementDriveMode::IRQEnable.bits();
        }
        ConfigSetup {
            addr: self.dev_addr,
            configuration,
            wait: ConfigWait::Current,
            step: ConfigStep::ReadRegister { addr: self.dev_addr, register: MEAS_MODE_REG },
        }
    }
}

impl ConfigSetup {
    /// Hands the configuration the register byte it asked for. A byte that it
    /// does not wait for changes nothing.
    pub fn received(&mut self, byte: u8) -> (st: ConfigStep)
        ensures
            *final(self) == config_received(*old(self), byte),
            st == final(self).step,
            final(self).addr == old(self).addr,
            final(self).configuration == old(self).configuration,
            old(self).wait == ConfigWait::Current && byte & old(self).configuration != 0 ==> st == (
            ConfigStep::WriteRegister {
                addr: old(self).addr,
                register: MEAS_MODE_REG,
                value: old(self).configuration,
            }),
            old(self).wait == ConfigWait::Current && byte & old(self).configuration == 0 ==> st == (
            ConfigStep::ReadRegister { addr: old(self).addr, register: MEAS_MODE_REG }),
            old(self).wait == ConfigWait::Readback ==> st == (ConfigStep::Done {
                confirmed: byte & old(self).configuration != 0,
            }),
    {
        match self.wait {
            ConfigWait::Current => {
                if byte & self.configuration != 0 {
                    self.wait = ConfigWait::Written;
                    self.step = ConfigStep::WriteRegister {
                        addr: self.addr,
                        register: MEAS_MODE_REG,
                        value: self.configuration,
                    };
                } else {
                    self.wait = ConfigWait::Readback;
                    self.step = ConfigStep::ReadRegister { addr: self.addr, register: MEAS_MODE_REG };
                }
            },
            ConfigWait::Readback => {
                self.wait = ConfigWait::Finished;
                self.step = ConfigStep::Done { confirmed: byte & self.configuration != 0 };
            },
            _ => {},
        }
        self.step
    }

    /// Tells the configuration that the write is done.
    pub fn written(&mut self) -> (st: ConfigStep)
        ensures
            *final(self) == config_written(*old(self)),
            st == final(self).step,
            final(self).addr == old(self).addr,
            final(self).configuration == old(self).configuration,
            old(self).wait == ConfigWait::Written ==> st == (ConfigStep::ReadRegister {
                addr: old(self).addr,
                register: MEAS_MODE_REG,
            }),
    {
        match self.wait {
            ConfigWait::Written => {
                self.wait = ConfigWait::Readback;
                self.step = ConfigStep::ReadRegister { addr: self.addr, register: MEAS_MODE_REG };
            },
            _ => {},
        }
        self.step
    }
}

/// Law: a configuration writes nothing but its configuration byte, to the measurement
/// mode register of its device, and reads only that register of that device. So a
/// configuration of a drive mode leaves that mode (and the interrupt setting asked
/// for) in the register, whatever the register held before.
pub proof fn lemma_config_writes_configuration(
    mode: MeasurementDriveMode,
    interrupt: bool,
    c: ConfigSetup,
    byte: u8,
)
    requires
        c.configuration == configuration_byte(mode, interrupt),
        mode != MeasurementDriveMode::IRQEnable,
    ensures
        config_received(c, byte).addr == c.addr,
        config_received(c, byte).configuration == c.configuration,
        config_written(c).addr == c.addr,
        config_written(c).configuration == c.configuration,
        c.wait == ConfigWait::Current ==> match config_received(c, byte).step {
            ConfigStep::WriteRegister { addr, register, value } => {
                &&& addr == c.addr
                &&& register == MEAS_MODE_REG
                &&& value == c.configuration
                &&& recognised_mode(value) == Some(mode)
                &&& (value & MeasurementDriveMode::IRQEnable.mask() != 0) == interrupt
            },
            ConfigStep::ReadRegister { addr, register } => addr == c.addr && register
                == MEAS_MODE_REG,
            ConfigStep::Done { .. } => false,
        },
        c.wait == ConfigWait::Written ==> config_written(c).step == (ConfigStep::ReadRegister {
            addr: c.addr,
            register: MEAS_MODE_REG,
        }),
{
    lemma_configuration_reads_back(mode, interrupt);
}

/// Law: the configuration byte has the interrupt bit exactly when the interrupt
/// is asked for (or the setting is the interrupt bit itself), and it keeps the
/// drive mode bits of the setting.
pub proof fn lemma_configuration_byte(mode: MeasurementDriveMode, interrupt: bool)
    ensures
        (configuration_byte(mode, interrupt) & MeasurementDriveMode::IRQEnable.mask() != 0) <==> (
        interrupt || mode == MeasurementDriveMode::IRQEnable),
        configuration_byte(mode, interrupt) & 0x70 == mode.mask() & 0x70,
{
    let m = mode.mask();
    assert(m == 0x00 || m == 0x10 || m == 0x20 || m == 0x30 || m == 0x40 || m == 0x08);
    assert(m == 0x08 <==> mode == MeasurementDriveMode::IRQEnable);
    assert((m == 0x00 || m == 0x10 || m == 0x20 || m == 0x30 || m == 0x40 || m == 0x08) ==> {
        &&& (m | 0x08) & 0x08 != 0
        &&& ((m & 0x08 != 0) <==> m == 0x08)
        &&& (m | 0x08) & 0x70 == m & 0x70
    }) by (bit_vector);
}

// ------------------------------------------------------------------------
// Readings and registers read back
// ------------------------------------------------------------------------

/// What the algorithm result register tells.
#[derive(Clone, Copy, Debug, PartialEq, Eq)]
pub struct AlgResult {
    /// The error id (byte 5) when the status flags an error, else `None`.
    pub error_id: Option<u8>,
    /// The equivalent CO2 level (ppm) and the total volatile organic compounds
    /// (ppb), or `DataNotReady` when the status does not flag a new sample.
    pub reading: Result<(u16, u16), Errors>,
}

impl CO2Sensor {
    /// The read of a measurement: the eight bytes of the algorithm result register.
    pub fn read_data(&self) -> (r: RegisterRead)
        ensures
            r == (RegisterRead {
                addr: self.addr(),
                register: ALG_RESULT_REG,
                len: ALG_RESULT_LEN,
            }),
    {
        RegisterRead { addr: self.dev_addr, register: ALG_RESULT_REG, len: ALG_RESULT_LEN }
    }

    /// The read of the measurement mode register.
    pub fn read_meas_mode(&self) -> (r: RegisterRead)
        ensures
            r == (RegisterRead { addr: self.addr(), register: MEAS_MODE_REG, len: 1 }),
    {
        RegisterRead { addr: self.dev_addr, register: MEAS_MODE_REG, len: 1 }
    }
}

/// The big-endian value of two bytes.
pub open spec fn be_u16(hi: u8, lo: u8) -> nat {
    hi as nat * 256 + lo as nat
}

/// Law: a big-endian pair of bytes is a 16-bit value whose high byte is the first
/// and whose low byte is the second.
pub proof fn lemma_be_u16_bytes(hi: u8, lo: u8)
    ensures
        be_u16(hi, lo) < 65536,
        be_u16(hi, lo) / 256 == hi,
        be_u16(hi, lo) % 256 == lo,
{
}

/// Decodes the algorithm result: the error id (byte 5) when the status byte
/// (byte 4) flags an error; and, when the status flags a new sample, eCO2 from
/// bytes 0 and 1 and TVOC from bytes 2 and 3 (most significant first), else
/// `DataNotReady`.
pub fn decode_alg_result(data: &[u8; 8]) -> (r: AlgResult)
    ensures
        r.error_id == (if Status::Error.is_set_in(data@[4]) {
            Some(data@[5])
        } else {
            None
        }),
        r.reading == (if Status::DataReady.is_set_in(data@[4]) {
            Ok((be_u16(data@[0], data@[1]) as u16, be_u16(data@[2], data@[3]) as u16))
        } else {
            Err(Errors::DataNotReady)
        }),
        r.reading matches Ok((eco2, tvoc)) ==> eco2 / 256 == data@[0] && eco2 % 256 == data@[1]
            && tvoc / 256 == data@[2] && tvoc % 256 == data@[3],
{
    let status = data[4];
    let error_id = if status & Status::Error.bits() != 0 {
        Some(data[5])
    } else {
        None
    };
    if status & Status::DataReady.bits() == 0 {
        return AlgResult { error_id, reading: Err(Errors::DataNotReady) };
    }
    let b0 = data[0];
    let b1 = data[1];
    let b2 = data[2];
    let b3 = data[3];
    let eco2: u16 = ((b0 as u16) << 8u16) | (b1 as u16);
    let tvoc: u16 = ((b2 as u16) << 8u16) | (b3 as u16);
    assert(((b0 as u16) << 8u16) | (b1 as u16) == b0 as u16 * 256 + b1 as u16) by (bit_vector);
    assert(((b2 as u16) << 8u16) | (b3 as u16) == b2 as u16 * 256 + b3 as u16) by (bit_vector);
    AlgResult { error_id, reading: Ok((eco2, tvoc)) }
}

/// What the measurement mode register tells, as the driver reads it.
#[derive(Clone, Copy, Debug, PartialEq, Eq)]
pub struct MeasModeReport {
    /// The drive mode recognised, if any.
    pub mode: Option<MeasurementDriveMode>,
    /// Whether the data-ready interrupt is enabled.
    pub interrupt_enabled: bool,
}

/// The bits of the measurement mode register that hold the drive mode.
pub const DRIVE_MODE_FIELD: u8 = 0x70;

/// The drive mode that a measurement mode byte holds in its drive mode field
/// (bits 4 to 6). The field values that name no mode (0x50, 0x60, 0x70) are
/// read by their low bits as the driver has always read them: bit 4 as the 1 s
/// mode, else bit 5 as the 10 s mode.
pub open spec fn recognised_mode(m: u8) -> Option<MeasurementDriveMode> {
    let field = m & DRIVE_MODE_FIELD;
    if field == MeasurementDriveMode::Mode0Idle.mask() {
        Some(MeasurementDriveMode::Mode0Idle)
    } else if field == MeasurementDriveMode::Mode11S.mask() {
        Some(MeasurementDriveMode::Mode11S)
    } else if field == MeasurementDriveMode::Mode210S.mask() {
        Some(MeasurementDriveMode::Mode210S)
    } else if field == MeasurementDriveMode::Mode360S.mask() {
        Some(MeasurementDriveMode::Mode360S)
    } else if field == MeasurementDriveMode::Mode4250MS.mask() {
        Some(MeasurementDriveMode::Mode4250MS)
    } else if m & MeasurementDriveMode::Mode11S.mask() != 0 {
        Some(MeasurementDriveMode::Mode11S)
    } else if m & MeasurementDriveMode::Mode210S.mask() != 0 {
        Some(MeasurementDriveMode::Mode210S)
    } else {
        None
    }
}

/// Reads a measurement mode byte: its drive mode, and whether the data-ready
/// interrupt is enabled.
pub fn describe_meas_mode(m: u8) -> (r: MeasModeReport)
    ensures
        r.mode == recognised_mode(m),
        r.interrupt_enabled == (m & MeasurementDriveMode::IRQEnable.mask() != 0),
{
    let field = m & DRIVE_MODE_FIELD;
    let mode = if field == MeasurementDriveMode::Mode0Idle.bits() {
        Some(MeasurementDriveMode::Mode0Idle)
    } else if field == MeasurementDriveMode::Mode11S.bits() {
        Some(MeasurementDriveMode::Mode11S)
    } else if field == MeasurementDriveMode::Mode210S.bits() {
        Some(MeasurementDriveMode::Mode210S)
    } else if field == MeasurementDriveMode::Mode360S.bits() {
        Some(MeasurementDriveMode::Mode360S)
    } else if field == MeasurementDriveMode::Mode4250MS.bits() {
        Some(MeasurementDriveMode::Mode4250MS)
    } else if m & MeasurementDriveMode::Mode11S.bits() != 0 {
        Some(MeasurementDriveMode::Mode11S)
    } else if m & MeasurementDriveMode::Mode210S.bits() != 0 {
        Some(MeasurementDriveMode::Mode210S)
    } else {
        None
    };
    MeasModeReport { mode, interrupt_enabled: m & MeasurementDriveMode::IRQEnable.bits() != 0 }
}

/// Law: the measurement mode register, once configured, reads back as the drive
/// mode and the interrupt setting that the configuration wrote (for every drive
/// mode; the interrupt bit alone reads back as the idle mode with the interrupt on).
pub proof fn lemma_configuration_reads_back(mode: MeasurementDriveMode, interrupt: bool)
    ensures
        recognised_mode(configuration_byte(mode, interrupt)) == (if mode
            == MeasurementDriveMode::IRQEnable {
            Some(MeasurementDriveMode::Mode0Idle)
        } else {
            Some(mode)
        }),
        (configuration_byte(mode, interrupt) & MeasurementDriveMode::IRQEnable.mask() != 0) <==> (
        interrupt || mode == MeasurementDriveMode::IRQEnable),
{
    lemma_configuration_byte(mode, interrupt);
    let m = mode.mask();
    assert((m == 0x00 || m == 0x10 || m == 0x20 || m == 0x30 || m == 0x40 || m == 0x08) ==> {
        &&& (m | 0x08) & 0x70 == m & 0x70
        &&& (m == 0x00 ==> m & 0x70 == 0x00)
        &&& (m == 0x10 ==> m & 0x70 == 0x10)
        &&& (m == 0x20 ==> m & 0x70 == 0x20)
        &&& (m == 0x30 ==> m & 0x70 == 0x30)
        &&& (m == 0x40 ==> m & 0x70 == 0x40)
        &&& (m == 0x08 ==> m & 0x70 == 0x00)
    }) by (bit_vector);
}

// ------------------------------------------------------------------------
// Error ids
// ------------------------------------------------------------------------

/// The name of a sensor error id: the named error codes, else `Error ` and the
/// id's eight bits.
pub open spec fn error_text(id: u8) -> Seq<u8> {
    if id == 1 {
        "WRITE_REG_INVALID".spec_bytes()
    } else if id == 2 {
        "READ_REG_INVALID".spec_bytes()
    } else if id == 4 {
        "MEASMODE_INVALID".spec_bytes()
    } else if id == 8 {
        "MAX_RESISTANCE".spec_bytes()
    } else if id == 16 {
        "HEATER_FAULT".spec_bytes()
    } else if id == 32 {
        "HEATER_SUPPLY".spec_bytes()
    } else {
        "Error ".spec_bytes() + binary_digits(id as nat, 8)
    }
}

/// The message that reports the sensor error `id` (what `print_error` logs).
pub fn error_message(id: u8) -> (msg: Vec<u8>)
    ensures
        msg@ == error_text(id),
{
    let mut msg: Vec<u8> = Vec::new();
    if id == 1 {
        push_all(&mut msg, "WRITE_REG_INVALID".as_bytes());
    } else if id == 2 {
        push_all(&mut msg, "READ_REG_INVALID".as_bytes());
    } else if id == 4 {
        push_all(&mut msg, "MEASMODE_INVALID".as_bytes());
    } else if id == 8 {
        push_all(&mut msg, "MAX_RESISTANCE".as_bytes());
    } else if id == 16 {
        push_all(&mut msg, "HEATER_FAULT".as_bytes());
    } else if id == 32 {
        push_all(&mut msg, "HEATER_SUPPLY".as_bytes());
    } else {
        push_all(&mut msg, "Error ".as_bytes());
        push_binary8(&mut msg, id);
    }
    assert(msg@ =~= error_text(id));
    msg
}

/// Law: an error id without a name is reported as `Error ` followed by eight
/// binary digits that read back as the id.
pub proof fn lemma_error_text_of_unnamed_id(id: u8)
    requires
        id != 1 && id != 2 && id != 4 && id != 8 && id != 16 && id != 32,
    ensures
        ({
            let pre = "Error ".spec_bytes();
            let t = error_text(id);
            &&& t.len() == pre.len() + 8
            &&& t.subrange(0, pre.len() as int) == pre
            &&& binary_value(t.subrange(pre.len() as int, t.len() as int)) == id
        }),
{
    let pre = "Error ".spec_bytes();
    assert(two_pow(8) == 256) by {
        reveal_with_fuel(two_pow, 9);
    }
    lemma_binary_digits_read_back(id as nat, 8);
    let t = error_text(id);
    assert(t.subrange(0, pre.len() as int) =~= pre);
    assert(t.subrange(pre.len() as int, t.len() as int) =~= binary_digits(id as nat, 8));
}

} // verus!
