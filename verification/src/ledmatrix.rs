//! One LED matrix module: how it is found among the serial ports, what is
//! written to it for each drawing operation, and how a draw or a read goes on
//! after each outcome.

use crate::matrix::transpose;
use crate::protocol::brightness_command;
use crate::protocol::check_fw_command;
use crate::protocol::column_params;
use crate::protocol::commit_col_command;
use crate::protocol::draw_bool_command;
use crate::protocol::frame_command;
use crate::protocol::framed;
use crate::protocol::fw_version_text;
use crate::protocol::reply_text;
use crate::protocol::set_col_command;
use crate::protocol::sleep_command;
use crate::protocol::wake_command;
use vstd::prelude::*;

verus! {

/// USB vendor id of the module.
pub const MODULE_VID: u16 = 12972;

/// USB product id of the module.
pub const MODULE_PID: u16 = 32;

/// Symbols per second on the serial link.
pub const BAUD_RATE: u32 = 115_200;

/// Milliseconds between two looks at the port while waiting for a reply.
pub const POLL_INTERVAL_MS: u64 = 10;

/// What the system knows of a USB serial adapter.
#[derive(Debug)]
pub struct UsbIdentity {
    pub vid: u16,
    pub pid: u16,
    pub serial_number: Option<String>,
}

/// How a serial port is attached.
#[derive(Debug)]
pub enum PortKind {
    UsbPort(UsbIdentity),
    PciPort,
    BluetoothPort,
    Unknown,
}

/// One serial port as the system lists it.
#[derive(Debug)]
pub struct PortRecord {
    pub port_name: String,
    pub port_type: PortKind,
}

/// The identity of a module: the port it was found on and its USB identity.
/// The serial number tells modules apart; the port name may change.
#[derive(Debug)]
pub struct Info {
    pub port_info: PortRecord,
    pub usb_info: UsbIdentity,
}

/// `serialport::SerialPortBuilder`: the settings with which a port is to be
/// opened. Its fields cannot be read from outside its crate, so a value of
/// it is only carried along.
#[verifier::external_type_specification]
#[verifier::external_body]
pub struct ExSerialPortBuilder(serialport::SerialPortBuilder);

/// The settings that `serialport::new` makes for a port name and a baud rate.
pub uninterp spec fn port_settings_for(port_name: Seq<char>, baud_rate: u32) -> serialport::SerialPortBuilder;

/// A module that was found and not yet opened.
pub struct LedMatrixBuilder {
    pub port: serialport::SerialPortBuilder,
    pub info: Info,
}

/// A connected module.
#[derive(Debug)]
pub struct LedMatrix {
    pub info: Info,
}

/// Two serial numbers name the same module: both absent, or both the same
/// text.
pub open spec fn same_serial(a: Option<String>, b: Option<String>) -> bool {
    match (a, b) {
        (Some(x), Some(y)) => x@ == y@,
        (None, None) => true,
        _ => false,
    }
}

/// The port carries the module's vendor and product ids.
pub open spec fn is_module(port: PortRecord) -> bool {
    port.port_type matches PortKind::UsbPort(usb) && usb.vid == 12972 && usb.pid == 32
}

/// The identity under which a module's port is kept.
pub open spec fn identity_of(port: PortRecord) -> Info {
    Info { port_info: port, usb_info: port.port_type->UsbPort_0 }
}

/// The identities of the modules among `ports`, in the order of the listing.
pub open spec fn modules_among(ports: Seq<PortRecord>) -> Seq<Info>
    decreases ports.len(),
{
    if ports.len() == 0 {
        Seq::empty()
    } else if is_module(ports.last()) {
        modules_among(ports.drop_last()).push(identity_of(ports.last()))
    } else {
        modules_among(ports.drop_last())
    }
}

/// The unopened connection to the module with the given identity: the
/// settings for its port at the module's baud rate, and the identity.
pub open spec fn builder_for(info: Info) -> LedMatrixBuilder {
    LedMatrixBuilder { port: port_settings_for(info.port_info.port_name@, 115_200), info }
}

/// The unopened connections to the modules among `ports`, in the order of
/// the listing.
pub open spec fn builders_among(ports: Seq<PortRecord>) -> Seq<LedMatrixBuilder> {
    modules_among(ports).map_values(|info: Info| builder_for(info))
}

/// Calls `serialport::new`, which makes the settings for a port of the given
/// name and baud rate without opening it. The settings are a function of the
/// two arguments alone: the name is copied, the baud rate taken over, and
/// every other setting is a constant of that crate.
#[verifier::external_body]
fn port_settings(port_name: &str, baud_rate: u32) -> (out: serialport::SerialPortBuilder)
    ensures
        out == port_settings_for(port_name@, baud_rate),
{
    serialport::new(port_name, baud_rate)
}

/// Compares two serial numbers.
pub fn serials_match(a: &Option<String>, b: &Option<String>) -> (out: bool)
    ensures
        out == same_serial(*a, *b),
{
    match a {
        Some(x) => match b {
            Some(y) => *x == *y,
            None => false,
        },
        None => match b {
            Some(_) => false,
            None => true,
        },
    }
}

fn copy_usb(usb: &UsbIdentity) -> (out: UsbIdentity)
    ensures
        out == *usb,
{
    let serial_number = match &usb.serial_number {
        Some(s) => Some(s.clone()),
        None => None,
    };
    UsbIdentity { vid: usb.vid, pid: usb.pid, serial_number }
}

fn copy_port(port: &PortRecord) -> (out: PortRecord)
    ensures
        out == *port,
{
    let port_type = match &port.port_type {
        PortKind::UsbPort(usb) => PortKind::UsbPort(copy_usb(usb)),
        PortKind::PciPort => PortKind::PciPort,
        PortKind::BluetoothPort => PortKind::BluetoothPort,
        PortKind::Unknown => PortKind::Unknown,
    };
    PortRecord { port_name: port.port_name.clone(), port_type }
}

/// Where a read of a reply stands.
#[derive(Clone, Copy, Debug, PartialEq, Eq, Structural)]
pub enum ReadPhase {
    /// No byte of the reply has been seen yet.
    Waiting,
    /// The reply has begun and is being taken from the port.
    Draining,
}

/// What to do next while reading a reply.
#[derive(Clone, Copy, Debug, PartialEq, Eq, Structural)]
pub enum ReadStep {
    /// Nothing has arrived: sleep this many milliseconds and look again.
    Sleep(u64),
    /// Bytes are available: read them into the buffer and look again.
    Read,
    /// The reply has been taken: hand the buffer to the caller.
    Finish,
    /// Nothing arrived within the timeout: give up.
    TimedOut,
}

/// The step that follows from what the port shows: `available` bytes waiting,
/// `elapsed_ms` since the read began, and the caller's `timeout_ms`.
pub open spec fn read_step(phase: ReadPhase, available: u32, elapsed_ms: u64, timeout_ms: u64) -> (
    ReadPhase,
    ReadStep,
) {
    match phase {
        ReadPhase::Waiting => if available >= 1 {
            (ReadPhase::Draining, ReadStep::Read)
        } else if elapsed_ms > timeout_ms {
            (ReadPhase::Waiting, ReadStep::TimedOut)
        } else {
            (ReadPhase::Waiting, ReadStep::Sleep(10))
        },
        ReadPhase::Draining => if available > 0 {
            (ReadPhase::Draining, ReadStep::Read)
        } else {
            (ReadPhase::Draining, ReadStep::Finish)
        },
    }
}

/// The first look at a silent port that comes after the timeout, when the
/// looks are one poll interval apart and the first is at zero.
pub open spec fn silent_deadline(timeout_ms: u64) -> int {
    (timeout_ms / 10 + 1) * 10
}

/// The command that shows all staged columns.
pub open spec fn commit_frame() -> Seq<u8> {
    framed(0x08, Seq::<u8>::empty())
}

/// A draw of a brightness frame in progress: nine column commands, then the
/// commit. It stops at the first command that fails.
#[derive(Clone, Copy, Debug)]
pub struct ColumnDraw {
    /// The frame's columns, left to right.
    pub columns: [[u8; 34]; 9],
    /// How many commands were written successfully.
    pub sent: u8,
    /// Whether a command failed.
    pub failed: bool,
}

impl ColumnDraw {
    /// The command that is to be written next, if any: column `sent` while
    /// columns are left, then the commit, and nothing after a failure or
    /// after the commit.
    pub open spec fn awaiting(self) -> Option<Seq<u8>> {
        if self.failed || self.sent > 9 {
            None
        } else if self.sent < 9 {
            Some(framed(0x07, column_params(self.sent, self.columns[self.sent as int]@)))
        } else {
            Some(commit_frame())
        }
    }

    /// The draw after the command it was waiting for was written (`ok`) or
    /// failed.
    pub open spec fn after(self, ok: bool) -> ColumnDraw {
        if self.failed || self.sent > 9 {
            self
        } else if ok {
            ColumnDraw { sent: (self.sent + 1) as u8, ..self }
        } else {
            ColumnDraw { failed: true, ..self }
        }
    }

    /// The draw after a sequence of outcomes, one for each command in turn.
    pub open spec fn after_all(self, outcomes: Seq<bool>) -> ColumnDraw
        decreases outcomes.len(),
    {
        if outcomes.len() == 0 {
            self
        } else {
            self.after_all(outcomes.drop_last()).after(outcomes.last())
        }
    }

    /// The command to write next, or `None` when the draw is over.
    pub fn next_command(&self) -> (out: Option<Vec<u8>>)
        ensures
            out is Some <==> self.awaiting() is Some,
            out matches Some(bytes) ==> self.awaiting() == Some(bytes@),
    {
        if self.failed || self.sent > 9 {
            None
        } else if self.sent < 9 {
            let col: usize = self.sent as usize;
            Some(set_col_command(self.sent, self.columns[col]))
        } else {
            Some(commit_col_command())
        }
    }

    /// Records whether the command from [`ColumnDraw::next_command`] was
    /// written.
    pub fn record(&mut self, ok: bool)
        ensures
            *final(self) == old(self).after(ok),
    {
        if self.failed || self.sent > 9 {
        } else if ok {
            self.sent = self.sent + 1;
        } else {
            self.failed = true;
        }
    }

    /// Whether all columns and the commit were written.
    pub fn is_committed(&self) -> (out: bool)
        ensures
            out == (!self.failed && self.sent > 9),
    {
        !self.failed && self.sent > 9
    }
}

/// A draw stays failed, and its count of written commands grows by at most
/// one with each outcome and only while nothing has failed.
proof fn lemma_after_all_bounds(start: ColumnDraw, outcomes: Seq<bool>, k: int)
    requires
        start.sent == 0,
        !start.failed,
        0 <= k < 9,
        k < outcomes.len(),
        !outcomes[k],
    ensures
        start.after_all(outcomes).sent <= k,
        start.after_all(outcomes).failed,
    decreases outcomes.len(),
{
    let head = outcomes.drop_last();
    if head.len() == k {
        lemma_after_all_count(start, head);
    } else {
        assert(head[k] == outcomes[k]);
        lemma_after_all_bounds(start, head, k);
    }
}

proof fn lemma_after_all_count(start: ColumnDraw, outcomes: Seq<bool>)
    requires
        start.sent == 0,
        !start.failed,
    ensures
        start.after_all(outcomes).sent <= outcomes.len(),
        start.after_all(outcomes).sent <= 10,
    decreases outcomes.len(),
{
    if outcomes.len() > 0 {
        lemma_after_all_count(start, outcomes.drop_last());
    }
}

/// If the write of any column fails, the commit is never asked for: whatever
/// the outcomes before and after the failure, at no point of the draw is the
/// command to write next the commit.
pub proof fn lemma_failed_column_never_commits(start: ColumnDraw, outcomes: Seq<bool>, k: int, n: int)
    requires
        start.sent == 0,
        !start.failed,
        0 <= k < 9,
        k < outcomes.len(),
        !outcomes[k],
        0 <= n <= outcomes.len(),
    ensures
        start.after_all(outcomes.take(n)).awaiting() != Some(commit_frame()),
{
    let seen = outcomes.take(n);
    let state = start.after_all(seen);
    if n <= k {
        lemma_after_all_count(start, seen);
        if !state.failed {
            let column = framed(0x07, column_params(state.sent, state.columns[state.sent as int]@));
            assert(column.len() == 38);
            assert(commit_frame().len() == 3);
        }
    } else {
        assert(seen[k] == outcomes[k]);
        lemma_after_all_bounds(start, seen, k);
    }
}

/// A port that never answers, looked at every poll interval from zero on,
/// gives a timeout at the first look after the bound: later than the bound,
/// and no later than the bound and one poll interval. Every earlier look
/// says to sleep one interval more.
pub proof fn lemma_silent_read_times_out(timeout_ms: u64, look: u64)
    requires
        look % 10 == 0,
        look <= silent_deadline(timeout_ms),
    ensures
        timeout_ms < silent_deadline(timeout_ms) <= timeout_ms + 10,
        look < silent_deadline(timeout_ms) ==> read_step(ReadPhase::Waiting, 0, look, timeout_ms)
            == (ReadPhase::Waiting, ReadStep::Sleep(10)),
        look == silent_deadline(timeout_ms) ==> read_step(ReadPhase::Waiting, 0, look, timeout_ms)
            == (ReadPhase::Waiting, ReadStep::TimedOut),
{
}

impl LedMatrix {
    /// The module behind a port that was opened, or nothing where opening
    /// failed: a module that is busy or gone is no error.
    pub fn connect(info: Info, opened: bool) -> (out: Option<LedMatrix>)
        ensures
            out == (if opened {
                Some(LedMatrix { info })
            } else {
                None
            }),
    {
        if opened {
            Some(LedMatrix { info })
        } else {
            None
        }
    }

    /// Whether two connections are to the same module: their serial numbers
    /// agree.
    pub fn equals(&self, matrix: &LedMatrix) -> (out: bool)
        ensures
            out == same_serial(self.info.usb_info.serial_number, matrix.info.usb_info.serial_number),
    {
        serials_match(&self.info.usb_info.serial_number, &matrix.info.usb_info.serial_number)
    }

    /// Picks the modules out of the system's list of serial ports: the USB
    /// ports with the module's vendor and product ids, in the order of the
    /// list. An empty result is no error.
    pub fn detect(ports: &Vec<PortRecord>) -> (out: Vec<LedMatrixBuilder>)
        ensures
            out@ == builders_among(ports@),
    {
        let mut mats: Vec<LedMatrixBuilder> = Vec::new();
        let mut i: usize = 0;
        while i < ports.len()
            invariant
                i <= ports@.len(),
                mats@ == builders_among(ports@.take(i as int)),
            decreases ports@.len() - i,
        {
            proof {
                assert(ports@.take(i + 1).drop_last() =~= ports@.take(i as int));
            }
            match &ports[i].port_type {
                PortKind::UsbPort(usb) => {
                    if usb.vid == MODULE_VID && usb.pid == MODULE_PID {
                        let builder = LedMatrix::create_builder(copy_port(&ports[i]), copy_usb(usb));
                        mats.push(builder);
                        proof {
                            assert(builder == builder_for(identity_of(ports@[i as int])));
                            assert(mats@ =~= builders_among(ports@.take(i + 1)));
                        }
                    }
                },
                _ => {},
            }
            i += 1;
        }
        proof {
            assert(ports@.take(ports@.len() as int) =~= ports@);
        }
        mats
    }

    /// The unopened connection to the module on the given port.
    pub fn create_builder(port_info: PortRecord, usb_info: UsbIdentity) -> (out: LedMatrixBuilder)
        ensures
            out == builder_for(Info { port_info, usb_info }),
    {
        let port = port_settings(port_info.port_name.as_str(), BAUD_RATE);
        LedMatrixBuilder { port, info: Info { port_info, usb_info } }
    }

    /// The bytes to write for a command: the two sync bytes, the command
    /// byte, then the parameters if there are any.
    pub fn sendcommand(&self, cmd: u8, params: Option<&[u8]>) -> (out: Vec<u8>)
        ensures
            out@ == framed(
                cmd,
                match params {
                    Some(p) => p@,
                    None => Seq::<u8>::empty(),
                },
            ),
    {
        match params {
            Some(p) => frame_command(cmd, p),
            None => {
                let none: [u8; 0] = [];
                let out = frame_command(cmd, none.as_slice());
                proof {
                    assert(none@ =~= Seq::<u8>::empty());
                }
                out
            },
        }
    }

    /// The next step of reading a reply, from what the port shows now.
    pub fn serialread(
        &self,
        phase: ReadPhase,
        available: u32,
        elapsed_ms: u64,
        timeout_ms: u64,
    ) -> (out: (ReadPhase, ReadStep))
        ensures
            out == read_step(phase, available, elapsed_ms, timeout_ms),
    {
        match phase {
            ReadPhase::Waiting => {
                if available >= 1 {
                    (ReadPhase::Draining, ReadStep::Read)
                } else if elapsed_ms > timeout_ms {
                    (ReadPhase::Waiting, ReadStep::TimedOut)
                } else {
                    (ReadPhase::Waiting, ReadStep::Sleep(POLL_INTERVAL_MS))
                }
            },
            ReadPhase::Draining => {
                if available > 0 {
                    (ReadPhase::Draining, ReadStep::Read)
                } else {
                    (ReadPhase::Draining, ReadStep::Finish)
                }
            },
        }
    }

    /// The command that asks the module for its firmware version.
    pub fn fw_version_query(&self) -> (out: Vec<u8>)
        ensures
            out@ == framed(0x20, Seq::<u8>::empty()),
    {
        check_fw_command()
    }

    /// The firmware version that a reply to the query shows, as text. A read
    /// that timed out (`None`) and a reply of fewer than three bytes give the
    /// empty text.
    pub fn get_fw_version(&self, reply: Option<&[u8]>) -> (out: String)
        ensures
            out@ == (match reply {
                Some(bytes) => reply_text(bytes@),
                None => Seq::<char>::empty(),
            }),
    {
        match reply {
            Some(bytes) => fw_version_text(bytes),
            None => String::new(),
        }
    }

    /// The command that wakes the module.
    pub fn wake(&self) -> (out: Vec<u8>)
        ensures
            out@ == framed(0x03, seq![0u8]),
    {
        wake_command()
    }

    /// The command that puts the module to sleep.
    pub fn sleep(&self) -> (out: Vec<u8>)
        ensures
            out@ == framed(0x03, seq![1u8]),
    {
        sleep_command()
    }

    /// The command that draws an on/off frame: 39 bytes, one bit per LED,
    /// after the header.
    pub fn draw_bool_matrix(&self, mat: [[bool; 9]; 34]) -> (out: Vec<u8>)
        ensures
            out@.len() == 42,
            out@.take(3) == seq![0x32u8, 0xACu8, 0x06u8],
            crate::matrix::bits_of(out@.skip(3)) == crate::matrix::frame_bits(mat),
    {
        draw_bool_command(mat)
    }

    /// The command that sets the brightness of every LED (0 is off, 255 is
    /// full).
    pub fn set_full_brightness(&self, val: u8) -> (out: Vec<u8>)
        ensures
            out@ == framed(0x00, seq![val]),
    {
        brightness_command(val)
    }

    /// The command that stages one column of brightness values, counted from
    /// the left. Staged columns show only after the commit.
    pub fn set_col(&self, col: u8, arr: [u8; 34]) -> (out: Vec<u8>)
        ensures
            out@ == framed(0x07, column_params(col, arr@)),
    {
        set_col_command(col, arr)
    }

    /// The command that shows all staged columns.
    pub fn commit_col(&self) -> (out: Vec<u8>)
        ensures
            out@ == commit_frame(),
    {
        commit_col_command()
    }

    /// Begins the draw of a brightness frame: the frame is transposed, and
    /// the draw waits for its first column to be written.
    pub fn draw_matrix(&self, mat: [[u8; 9]; 34]) -> (out: ColumnDraw)
        ensures
            crate::matrix::grid_view(out.columns) == crate::matrix::transposed(
                crate::matrix::grid_view(mat),
                9,
            ),
            out.sent == 0,
            !out.failed,
    {
        ColumnDraw { columns: transpose(mat), sent: 0, failed: false }
    }
}

} // verus!
