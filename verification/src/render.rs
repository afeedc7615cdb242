//! The decisions of the render loop: which found modules to connect, how a
//! tick's frame is composed and to which module it goes, what follows from a
//! failed draw, and how long to sleep.

use crate::ledmatrix::same_serial;
use crate::ledmatrix::serials_match;
use crate::ledmatrix::LedMatrix;
use crate::ledmatrix::LedMatrixBuilder;
use crate::matrix::check_placement;
use crate::matrix::place;
use crate::matrix::placed_cell;
use crate::matrix::placement_verdict;
use crate::matrix::PlacementError;
use crate::widget::Shape;
use crate::widget::UpdatableWidget;
use vstd::prelude::*;

verus! {

/// Milliseconds from the start of one tick to the start of the next.
pub const UPDATE_PERIOD: u64 = 100;

/// Milliseconds to pause after a module failed, and when none is connected.
pub const RETRY_PAUSE_MS: u64 = 1000;

/// Brightness that a module is set to when it is connected.
pub const STARTUP_BRIGHTNESS: u8 = 65;

/// Every how many ticks the slower widgets are refreshed.
pub const SLOW_CADENCE: u8 = 5;

/// Row at which the battery widget is placed.
pub const BATTERY_ROW: usize = 0;

/// Row at which the memory widget is placed.
pub const MEMORY_ROW: usize = 3;

/// Row at which the processor widget is placed.
pub const CPU_ROW: usize = 6;

/// Row at which the clock widget is placed.
pub const CLOCK_ROW: usize = 23;

/// What a widget drew: brightness values row after row, and their extent.
#[derive(Debug)]
pub struct WidgetOutput {
    pub values: Vec<u8>,
    pub shape: Shape,
}

/// What a module is sent in a tick.
#[derive(Clone, Copy, Debug, PartialEq, Eq, Structural)]
pub enum Content {
    /// The frame composed from the widgets.
    Composed,
    /// A frame with every LED off.
    Blank,
}

/// Where a tick's frames go.
#[derive(Clone, Copy, Debug, PartialEq, Eq, Structural)]
pub enum Route {
    /// No module, or more than two: nothing is drawn, and the loop pauses.
    Idle,
    /// One module: it gets the composed frame.
    Single,
    /// Two modules: what the first and the second get.
    Pair(Content, Content),
}

/// How far the draws of a tick have come.
#[derive(Clone, Copy, Debug, PartialEq, Eq, Structural)]
pub enum DrawStage {
    /// Nothing was drawn yet.
    Begin,
    /// The first of two modules was drawn on; the second is to get this.
    Second(Content),
    /// The draws are over.
    End,
}

/// What the loop does next within a tick.
#[derive(Clone, Copy, Debug, PartialEq, Eq, Structural)]
pub enum TickAction {
    /// Draw on the module at position `device`.
    Draw { device: usize, content: Content },
    /// No module to draw on: sleep this many milliseconds.
    Pause(u64),
    /// The draws are over: look for modules.
    Discover,
}

/// The serial number is present and reads `primary`.
pub open spec fn is_primary(serial: Option<String>, primary: Seq<char>) -> bool {
    serial matches Some(s) && s@ == primary
}

/// Where the frames go, by the number of connected modules and the serial
/// number of the first: of two modules, the first gets the composed frame if
/// it is the primary one, and the second gets it otherwise.
pub open spec fn routing(devices: Seq<LedMatrix>, primary: Seq<char>) -> Route {
    if devices.len() == 1 {
        Route::Single
    } else if devices.len() == 2 {
        if is_primary(devices[0].info.usb_info.serial_number, primary) {
            Route::Pair(Content::Composed, Content::Blank)
        } else {
            Route::Pair(Content::Blank, Content::Composed)
        }
    } else {
        Route::Idle
    }
}

/// The next stage and action of a tick's draws. A tick begins by its route:
/// one module is drawn on, of two the first is, and otherwise the loop
/// pauses. The second of two modules is drawn on only if both are still
/// connected after the first draw.
pub open spec fn tick_step(devices: Seq<LedMatrix>, stage: DrawStage, primary: Seq<char>) -> (
    DrawStage,
    TickAction,
) {
    match stage {
        DrawStage::Begin => match routing(devices, primary) {
            Route::Single => (
                DrawStage::End,
                TickAction::Draw { device: 0, content: Content::Composed },
            ),
            Route::Pair(first, second) => (
                DrawStage::Second(second),
                TickAction::Draw { device: 0, content: first },
            ),
            Route::Idle => (DrawStage::End, TickAction::Pause(1000)),
        },
        DrawStage::Second(content) => if devices.len() == 2 {
            (DrawStage::End, TickAction::Draw { device: 1, content })
        } else {
            (DrawStage::End, TickAction::Discover)
        },
        DrawStage::End => (DrawStage::End, TickAction::Discover),
    }
}

/// No two of the devices have the same serial number.
pub open spec fn distinct_serials(devices: Seq<LedMatrix>) -> bool {
    forall|i: int, j: int|
        0 <= i < j < devices.len() ==> !same_serial(
            (#[trigger] devices[i]).info.usb_info.serial_number,
            (#[trigger] devices[j]).info.usb_info.serial_number,
        )
}

/// One of the devices has the given serial number.
pub open spec fn holds_serial(devices: Seq<LedMatrix>, serial: Option<String>) -> bool {
    exists|i: int|
        0 <= i < devices.len() && same_serial(
            (#[trigger] devices[i]).info.usb_info.serial_number,
            serial,
        )
}

/// The connected modules, each with the handle of its open port. No two of
/// them have the same serial number.
pub struct LiveSet<H> {
    devices: Vec<LedMatrix>,
    handles: Vec<H>,
}

impl<H> LiveSet<H> {
    /// The connected modules, in the order in which they were connected.
    pub closed spec fn devices(&self) -> Seq<LedMatrix> {
        self.devices@
    }

    /// The handles of the modules' ports, in the same order.
    pub closed spec fn handles(&self) -> Seq<H> {
        self.handles@
    }

    /// Each module has its handle, and no serial number occurs twice. This
    /// holds of the empty set, and enrolling and dropping keep it.
    pub open spec fn well_formed(&self) -> bool {
        self.handles().len() == self.devices().len() && distinct_serials(self.devices())
    }

    /// A set without modules.
    pub fn new() -> (out: Self)
        ensures
            out.devices() == Seq::<LedMatrix>::empty(),
            out.handles() == Seq::<H>::empty(),
            out.well_formed(),
    {
        LiveSet { devices: Vec::new(), handles: Vec::new() }
    }

    /// The number of connected modules.
    pub fn len(&self) -> (out: usize)
        ensures
            out == self.devices().len(),
    {
        self.devices.len()
    }

    /// The module at position `i`.
    pub fn device(&self, i: usize) -> (out: Option<&LedMatrix>)
        ensures
            out == (if i < self.devices().len() {
                Some(&self.devices()[i as int])
            } else {
                None
            }),
    {
        if i < self.devices.len() {
            Some(&self.devices[i])
        } else {
            None
        }
    }

    /// The handle of the module at position `i`.
    pub fn handle(&self, i: usize) -> (out: Option<&H>)
        ensures
            out == (if i < self.handles().len() {
                Some(&self.handles()[i as int])
            } else {
                None
            }),
    {
        if i < self.handles.len() {
            Some(&self.handles[i])
        } else {
            None
        }
    }

    /// Whether a module with this serial number is connected.
    pub fn has_serial(&self, serial: &Option<String>) -> (out: bool)
        ensures
            out == holds_serial(self.devices(), *serial),
    {
        let mut i: usize = 0;
        while i < self.devices.len()
            invariant
                i <= self.devices@.len(),
                forall|k: int|
                    0 <= k < i ==> !same_serial(
                        (#[trigger] self.devices@[k]).info.usb_info.serial_number,
                        *serial,
                    ),
            decreases self.devices@.len() - i,
        {
            if serials_match(&self.devices[i].info.usb_info.serial_number, serial) {
                return true;
            }
            i += 1;
        }
        false
    }

    /// Whether a module that was found is to be connected: it is, unless a
    /// module with its serial number is connected already. The port it was
    /// found on plays no part.
    pub fn needs_connection(&self, candidate: &LedMatrixBuilder) -> (out: bool)
        ensures
            out == !holds_serial(self.devices(), candidate.info.usb_info.serial_number),
    {
        !self.has_serial(&candidate.info.usb_info.serial_number)
    }

    /// Takes a newly connected module into the set, at the end. A module
    /// whose serial number is connected already is turned away, and the set
    /// stays as it was.
    pub fn enroll(&mut self, device: LedMatrix, handle: H) -> (out: bool)
        ensures
            out == !holds_serial(old(self).devices(), device.info.usb_info.serial_number),
            out ==> final(self).devices() == old(self).devices().push(device),
            out ==> final(self).handles() == old(self).handles().push(handle),
            !out ==> final(self).devices() == old(self).devices(),
            !out ==> final(self).handles() == old(self).handles(),
            old(self).well_formed() ==> final(self).well_formed(),
    {
        if self.has_serial(&device.info.usb_info.serial_number) {
            return false;
        }
        self.devices.push(device);
        self.handles.push(handle);
        true
    }

    /// Position `i` holds a module and its handle.
    pub open spec fn holds_index(&self, i: int) -> bool {
        0 <= i < self.devices().len() && i < self.handles().len()
    }

    /// The set without the module at position `i`, if there is one.
    pub open spec fn without(&self, i: int, after: Self) -> bool {
        if self.holds_index(i) {
            after.devices() == self.devices().remove(i) && after.handles() == self.handles().remove(
                i,
            )
        } else {
            after.devices() == self.devices() && after.handles() == self.handles()
        }
    }

    /// Removes the module at position `i`, and hands it back with its handle.
    /// The modules behind it move up by one. Where there is no such module,
    /// the set stays as it was.
    pub fn drop_device(&mut self, i: usize) -> (out: Option<(LedMatrix, H)>)
        ensures
            old(self).without(i as int, *final(self)),
            out == (if old(self).holds_index(i as int) {
                Some((old(self).devices()[i as int], old(self).handles()[i as int]))
            } else {
                None
            }),
            old(self).well_formed() ==> final(self).well_formed(),
    {
        if i >= self.devices.len() || i >= self.handles.len() {
            return None;
        }
        let device = self.devices.remove(i);
        let handle = self.handles.remove(i);
        Some((device, handle))
    }

    /// Where this tick's frames go.
    pub fn route(&self, primary: &str) -> (out: Route)
        ensures
            out == routing(self.devices(), primary@),
    {
        if self.devices.len() == 1 {
            Route::Single
        } else if self.devices.len() == 2 {
            let first = match &self.devices[0].info.usb_info.serial_number {
                Some(s) => *s == String::from_str(primary),
                None => false,
            };
            if first {
                Route::Pair(Content::Composed, Content::Blank)
            } else {
                Route::Pair(Content::Blank, Content::Composed)
            }
        } else {
            Route::Idle
        }
    }

    /// The next stage and action of this tick's draws.
    pub fn next_action(&self, stage: DrawStage, primary: &str) -> (out: (DrawStage, TickAction))
        ensures
            out == tick_step(self.devices(), stage, primary@),
    {
        match stage {
            DrawStage::Begin => match self.route(primary) {
                Route::Single => (
                    DrawStage::End,
                    TickAction::Draw { device: 0, content: Content::Composed },
                ),
                Route::Pair(first, second) => (
                    DrawStage::Second(second),
                    TickAction::Draw { device: 0, content: first },
                ),
                Route::Idle => (DrawStage::End, TickAction::Pause(RETRY_PAUSE_MS)),
            },
            DrawStage::Second(content) => {
                if self.devices.len() == 2 {
                    (DrawStage::End, TickAction::Draw { device: 1, content })
                } else {
                    (DrawStage::End, TickAction::Discover)
                }
            },
            DrawStage::End => (DrawStage::End, TickAction::Discover),
        }
    }

    /// What follows from a draw on the module at position `i`: after a
    /// failure the module is dropped, so that it is looked for again, and the
    /// loop pauses for the returned number of milliseconds.
    pub fn after_draw(&mut self, i: usize, ok: bool) -> (out: Option<u64>)
        ensures
            out == (if ok {
                None
            } else {
                Some(1000u64)
            }),
            ok ==> final(self).devices() == old(self).devices() && final(self).handles() == old(self).handles(),
            !ok ==> old(self).without(i as int, *final(self)),
            old(self).well_formed() ==> final(self).well_formed(),
    {
        if ok {
            None
        } else {
            let _ = self.drop_device(i);
            Some(RETRY_PAUSE_MS)
        }
    }
}

/// After a module was enrolled, its serial number is held, and so is every
/// serial number that was held before: a module found again, on whatever
/// port, is not connected a second time.
pub proof fn lemma_enrolled_serial_is_held(
    devices: Seq<LedMatrix>,
    device: LedMatrix,
    serial: Option<String>,
)
    requires
        same_serial(device.info.usb_info.serial_number, serial) || holds_serial(devices, serial),
    ensures
        holds_serial(devices.push(device), serial),
{
    let after = devices.push(device);
    if same_serial(device.info.usb_info.serial_number, serial) {
        assert(same_serial(after[devices.len() as int].info.usb_info.serial_number, serial));
    } else {
        let i = choose|i: int|
            0 <= i < devices.len() && same_serial(
                (#[trigger] devices[i]).info.usb_info.serial_number,
                serial,
            );
        assert(same_serial(after[i].info.usb_info.serial_number, serial));
    }
}

/// Without a connected module a tick draws nothing: it pauses, and then
/// looks for modules.
pub proof fn lemma_no_module_no_draw(devices: Seq<LedMatrix>, primary: Seq<char>)
    requires
        devices.len() == 0,
    ensures
        tick_step(devices, DrawStage::Begin, primary) == (
            DrawStage::End,
            TickAction::Pause(1000),
        ),
        tick_step(devices, DrawStage::End, primary) == (DrawStage::End, TickAction::Discover),
{
}

/// Of two connected modules of which the first is the primary one, the first
/// is drawn the composed frame and then, if both are still connected, the
/// second a dark one.
pub proof fn lemma_primary_first_gets_frame(devices: Seq<LedMatrix>, primary: Seq<char>)
    requires
        devices.len() == 2,
        is_primary(devices[0].info.usb_info.serial_number, primary),
    ensures
        tick_step(devices, DrawStage::Begin, primary) == (
            DrawStage::Second(Content::Blank),
            TickAction::Draw { device: 0, content: Content::Composed },
        ),
        tick_step(devices, DrawStage::Second(Content::Blank), primary) == (
            DrawStage::End,
            TickAction::Draw { device: 1, content: Content::Blank },
        ),
{
}

/// Whether the four widgets fit at their rows, and if not, what is wrong
/// with the first that does not.
pub open spec fn layout_verdict(
    bat: WidgetOutput,
    ram: WidgetOutput,
    cpu: WidgetOutput,
    clock: WidgetOutput,
) -> Result<(), PlacementError> {
    if placement_verdict(bat.values@.len() as int, bat.shape, 0, 0) is Err {
        placement_verdict(bat.values@.len() as int, bat.shape, 0, 0)
    } else if placement_verdict(ram.values@.len() as int, ram.shape, 0, 3) is Err {
        placement_verdict(ram.values@.len() as int, ram.shape, 0, 3)
    } else if placement_verdict(cpu.values@.len() as int, cpu.shape, 0, 6) is Err {
        placement_verdict(cpu.values@.len() as int, cpu.shape, 0, 6)
    } else {
        placement_verdict(clock.values@.len() as int, clock.shape, 0, 23)
    }
}

/// Cell `(row, col)` of the composed frame: a dark frame on which the
/// battery, memory, processor and clock widgets were placed in this order,
/// at column 0 and rows 0, 3, 6 and 23.
pub open spec fn composed_cell(
    bat: WidgetOutput,
    ram: WidgetOutput,
    cpu: WidgetOutput,
    clock: WidgetOutput,
    row: int,
    col: int,
) -> u8 {
    let under_ram = placed_cell(0u8, bat.values@, bat.shape, 0, 0, row, col);
    let under_cpu = placed_cell(under_ram, ram.values@, ram.shape, 0, 3, row, col);
    let under_clock = placed_cell(under_cpu, cpu.values@, cpu.shape, 0, 6, row, col);
    placed_cell(under_clock, clock.values@, clock.shape, 0, 23, row, col)
}

/// Asks a widget for what it draws: the brightness values are what its
/// `get_matrix` returns, and the shape is what its `get_shape` returns.
pub fn render<W: UpdatableWidget>(widget: &W) -> (out: WidgetOutput)
    ensures
        call_ensures(W::get_matrix, (widget,), out.values),
        call_ensures(W::get_shape, (widget,), out.shape),
{
    let values = widget.get_matrix();
    let shape = widget.get_shape();
    WidgetOutput { values, shape }
}

/// A frame with every LED off.
pub fn blank_frame() -> (out: [[u8; 9]; 34])
    ensures
        forall|row: int, col: int| 0 <= row < 34 && 0 <= col < 9 ==> #[trigger] out[row][col] == 0,
{
    [[0u8; 9]; 34]
}

/// Composes a tick's frame from what the four widgets drew.
pub fn compose(bat: &WidgetOutput, ram: &WidgetOutput, cpu: &WidgetOutput, clock: &WidgetOutput) -> (out:
    Result<[[u8; 9]; 34], PlacementError>)
    ensures
        match out {
            Ok(frame) => layout_verdict(*bat, *ram, *cpu, *clock) is Ok && forall|
                row: int,
                col: int,
            |
                0 <= row < 34 && 0 <= col < 9 ==> #[trigger] frame[row][col] == composed_cell(
                    *bat,
                    *ram,
                    *cpu,
                    *clock,
                    row,
                    col,
                ),
            Err(e) => layout_verdict(*bat, *ram, *cpu, *clock) == Err::<(), PlacementError>(e),
        },
{
    let dark = blank_frame();
    match check_placement(bat.values.len(), bat.shape, 0, BATTERY_ROW) {
        Err(e) => {
            return Err(e);
        },
        Ok(()) => {},
    }
    let with_bat = place(dark, &bat.values, bat.shape, 0, BATTERY_ROW);
    match check_placement(ram.values.len(), ram.shape, 0, MEMORY_ROW) {
        Err(e) => {
            return Err(e);
        },
        Ok(()) => {},
    }
    let with_ram = place(with_bat, &ram.values, ram.shape, 0, MEMORY_ROW);
    match check_placement(cpu.values.len(), cpu.shape, 0, CPU_ROW) {
        Err(e) => {
            return Err(e);
        },
        Ok(()) => {},
    }
    let with_cpu = place(with_ram, &cpu.values, cpu.shape, 0, CPU_ROW);
    match check_placement(clock.values.len(), clock.shape, 0, CLOCK_ROW) {
        Err(e) => {
            return Err(e);
        },
        Ok(()) => {},
    }
    let frame = place(with_cpu, &clock.values, clock.shape, 0, CLOCK_ROW);
    proof {
        assert forall|row: int, col: int| 0 <= row < 34 && 0 <= col < 9 implies #[trigger] frame[row][col]
            == composed_cell(*bat, *ram, *cpu, *clock, row, col) by {
            assert(dark[row][col] == 0);
            assert(with_bat[row][col] == placed_cell(dark[row][col], bat.values@, bat.shape, 0, 0, row, col));
            assert(with_ram[row][col] == placed_cell(with_bat[row][col], ram.values@, ram.shape, 0, 3, row, col));
            assert(with_cpu[row][col] == placed_cell(with_ram[row][col], cpu.values@, cpu.shape, 0, 6, row, col));
        }
    }
    Ok(frame)
}

/// The frame that stands for a content: the composed frame itself, or a
/// dark one.
pub fn frame_for(content: Content, composed: [[u8; 9]; 34]) -> (out: [[u8; 9]; 34])
    ensures
        content == Content::Composed ==> out == composed,
        content == Content::Blank ==> forall|row: int, col: int|
            0 <= row < 34 && 0 <= col < 9 ==> #[trigger] out[row][col] == 0,
{
    match content {
        Content::Composed => composed,
        Content::Blank => blank_frame(),
    }
}

/// Whether the slower widgets are refreshed in the tick with this count:
/// in every fifth tick, beginning with the first.
pub fn slow_update_due(ticker: u8) -> (out: bool)
    ensures
        out == (ticker % 5 == 0),
{
    ticker % SLOW_CADENCE == 0
}

/// The count of the next tick. It starts over after 255.
pub fn next_ticker(ticker: u8) -> (out: u8)
    ensures
        out == (ticker + 1) % 256,
{
    if ticker == 255 {
        0
    } else {
        ticker + 1
    }
}

/// How long to sleep at the end of a tick that took `elapsed_ms`: the rest
/// of the update period, or not at all where the tick took that long.
pub fn remaining_sleep(elapsed_ms: u64) -> (out: Option<u64>)
    ensures
        out == (if elapsed_ms < 100 {
            Some((100 - elapsed_ms) as u64)
        } else {
            None
        }),
{
    if elapsed_ms < UPDATE_PERIOD {
        Some(UPDATE_PERIOD - elapsed_ms)
    } else {
        None
    }
}

/// The two commands written to a module right after it was connected: all
/// LEDs off, then the startup brightness.
pub fn startup_commands(device: &LedMatrix) -> (out: (Vec<u8>, Vec<u8>))
    ensures
        out.0@.len() == 42,
        out.0@.take(3) == seq![0x32u8, 0xACu8, 0x06u8],
        forall|i: int| 3 <= i < 42 ==> out.0@[i] == 0,
        out.1@ == crate::protocol::framed(0x00, seq![65u8]),
{
    let dark: [[bool; 9]; 34] = [[false; 9]; 34];
    let clear = device.draw_bool_matrix(dark);
    let dim = device.set_full_brightness(STARTUP_BRIGHTNESS);
    proof {
        let zeros = Seq::new(39, |i: int| 0u8);
        assert(crate::matrix::bits_of(zeros) =~= crate::matrix::frame_bits(dark)) by {
            assert forall|i: int| 0 <= i < 312 implies !crate::matrix::packed_bit(zeros, i) by {
                let shift = (i % 8) as u8;
                assert((0u8 >> shift) & 1u8 != 1u8) by (bit_vector);
            }
        }
        crate::matrix::lemma_bits_determine_bytes(clear@.skip(3), zeros);
        assert forall|i: int| 3 <= i < 42 implies clear@[i] == 0 by {
            assert(clear@[i] == clear@.skip(3)[i - 3]);
        }
    }
    (clear, dim)
}

} // verus!
