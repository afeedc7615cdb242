//! What a telemetry widget hands to the render loop, and the clock face.

use vstd::prelude::*;

verus! {

/// Brightness of a fully lit LED.
pub const ON_FULL: u8 = 120;

/// Brightness of a dimly lit LED.
pub const ON_DIM: u8 = 68;

/// Brightness of a dark LED.
pub const OFF: u8 = 0;

/// Extent of a widget's output: `x` columns by `y` rows.
#[derive(Clone, Copy, Debug, PartialEq, Eq, Structural)]
pub struct Shape {
    pub x: usize,
    pub y: usize,
}

/// A telemetry source that can be refreshed from the system and drawn.
///
/// `get_matrix` returns the brightness values row after row, and `get_shape`
/// the extent they are meant for. Nothing is assumed of an implementation:
/// what it returns is checked before it is placed.
pub trait UpdatableWidget {
    fn update(&mut self);

    fn get_matrix(&self) -> Vec<u8>;

    fn get_shape(&self) -> Shape;
}

/// The 3x5 glyph of a decimal digit, row after row. Anything above nine is
/// drawn as zero.
pub open spec fn digit_glyph(num: int) -> Seq<u8> {
    if num == 1 {
        seq![0u8, 0, 120, 0, 68, 120, 0, 0, 120, 0, 0, 120, 0, 0, 120]
    } else if num == 2 {
        seq![120u8, 120, 120, 0, 0, 120, 120, 120, 120, 120, 0, 0, 120, 120, 120]
    } else if num == 3 {
        seq![120u8, 120, 120, 0, 0, 120, 120, 120, 0, 0, 0, 120, 120, 120, 120]
    } else if num == 4 {
        seq![120u8, 0, 120, 120, 0, 120, 120, 120, 120, 0, 0, 120, 0, 0, 120]
    } else if num == 5 {
        seq![120u8, 120, 120, 120, 0, 0, 120, 120, 120, 0, 0, 120, 120, 120, 120]
    } else if num == 6 {
        seq![0u8, 120, 68, 120, 0, 0, 120, 120, 120, 120, 0, 120, 120, 120, 120]
    } else if num == 7 {
        seq![120u8, 120, 120, 68, 0, 120, 0, 0, 120, 0, 120, 0, 0, 120, 0]
    } else if num == 8 {
        seq![120u8, 120, 120, 120, 0, 120, 120, 120, 120, 120, 0, 120, 120, 120, 120]
    } else if num == 9 {
        seq![120u8, 120, 120, 120, 0, 120, 120, 120, 120, 0, 0, 120, 68, 120, 0]
    } else {
        seq![0u8, 120, 0, 120, 0, 120, 120, 0, 120, 120, 0, 120, 0, 120, 0]
    }
}

/// Cell `idx` of the 9x5 strip that shows a two-digit number: the tens in
/// columns 1 to 3, the units in columns 5 to 7, the rest dark.
pub open spec fn number_cell(num: int, idx: int) -> u8 {
    let col = idx % 9;
    let line = idx / 9;
    if 1 <= col <= 3 {
        digit_glyph(num / 10)[line * 3 + col - 1]
    } else if 5 <= col <= 7 {
        digit_glyph(num % 10)[line * 3 + col - 5]
    } else {
        0u8
    }
}

/// The 9x5 strip that shows a two-digit number.
pub open spec fn number_strip(num: int) -> Seq<u8> {
    Seq::new(45, |idx: int| number_cell(num, idx))
}

/// The 9x11 clock face: the hour, a dark row, the minute.
pub open spec fn clock_face(hour: int, minute: int) -> Seq<u8> {
    number_strip(hour) + Seq::new(9, |i: int| 0u8) + number_strip(minute)
}

/// The 9x4 outline of a battery with an empty interior, row after row.
pub open spec fn battery_outline() -> Seq<u8> {
    seq![
        120u8, 120, 120, 120, 120, 120, 120, 120, 0,
        120, 0, 0, 0, 0, 0, 0, 120, 120,
        120, 0, 0, 0, 0, 0, 0, 120, 120,
        120, 120, 120, 120, 120, 120, 120, 120, 0,
    ]
}

/// Cell `idx` of the battery gauge with `lit` of its six segments lit: the
/// segments are columns 1 to 6 of the two inner rows, lit dimly from the
/// left; the rest is the outline.
pub open spec fn gauge_cell(lit: int, idx: int) -> u8 {
    let col = idx % 9;
    let row = idx / 9;
    if (row == 1 || row == 2) && 1 <= col <= 6 && col <= lit {
        68u8
    } else {
        battery_outline()[idx]
    }
}

/// The 9x4 battery gauge with `lit` of its six segments lit.
pub open spec fn battery_gauge_cells(lit: int) -> Seq<u8> {
    Seq::new(36, |idx: int| gauge_cell(lit, idx))
}

/// Draws the battery gauge with `lit` of its six segments lit. More than six
/// is a full gauge.
pub fn battery_gauge(lit: usize) -> (out: Vec<u8>)
    ensures
        out@ == battery_gauge_cells(lit as int),
{
    let outline: [u8; 36] = [
        ON_FULL, ON_FULL, ON_FULL, ON_FULL, ON_FULL, ON_FULL, ON_FULL, ON_FULL, OFF,
        ON_FULL, OFF, OFF, OFF, OFF, OFF, OFF, ON_FULL, ON_FULL,
        ON_FULL, OFF, OFF, OFF, OFF, OFF, OFF, ON_FULL, ON_FULL,
        ON_FULL, ON_FULL, ON_FULL, ON_FULL, ON_FULL, ON_FULL, ON_FULL, ON_FULL, OFF,
    ];
    proof {
        assert(outline@ =~= battery_outline());
    }
    let mut out: Vec<u8> = Vec::new();
    let mut idx: usize = 0;
    while idx < 36
        invariant
            idx <= 36,
            out@.len() == idx,
            outline@ == battery_outline(),
            forall|k: int| 0 <= k < idx ==> #[trigger] out@[k] == gauge_cell(lit as int, k),
        decreases 36 - idx,
    {
        let col: usize = idx % 9;
        let row: usize = idx / 9;
        let cell: u8 = if (row == 1 || row == 2) && 1 <= col && col <= 6 && col <= lit {
            ON_DIM
        } else {
            outline[idx]
        };
        out.push(cell);
        idx += 1;
    }
    proof {
        assert(out@ =~= battery_gauge_cells(lit as int));
    }
    out
}

/// Shows the time of day in 24-hour format, hours above minutes.
#[derive(Clone, Copy, Debug)]
pub struct ClockWidget {
    pub hour: u32,
    pub minute: u32,
}

impl ClockWidget {
    /// A clock that shows the given time.
    pub fn new(hour: u32, minute: u32) -> (out: Self)
        ensures
            out.hour == hour,
            out.minute == minute,
    {
        ClockWidget { hour, minute }
    }

    /// Takes over a new reading of the time.
    pub fn set_time(&mut self, hour: u32, minute: u32)
        ensures
            final(self).hour == hour,
            final(self).minute == minute,
    {
        self.hour = hour;
        self.minute = minute;
    }

    /// The glyph of one digit.
    pub fn render_digit(num: u32) -> (out: [u8; 15])
        ensures
            out@ == digit_glyph(num as int),
    {
        let out: [u8; 15] = match num {
            1 => [
                OFF, OFF, ON_FULL,
                OFF, ON_DIM, ON_FULL,
                OFF, OFF, ON_FULL,
                OFF, OFF, ON_FULL,
                OFF, OFF, ON_FULL,
            ],
            2 => [
                ON_FULL, ON_FULL, ON_FULL,
                OFF, OFF, ON_FULL,
                ON_FULL, ON_FULL, ON_FULL,
                ON_FULL, OFF, OFF,
                ON_FULL, ON_FULL, ON_FULL,
            ],
            3 => [
                ON_FULL, ON_FULL, ON_FULL,
                OFF, OFF, ON_FULL,
                ON_FULL, ON_FULL, OFF,
                OFF, OFF, ON_FULL,
                ON_FULL, ON_FULL, ON_FULL,
            ],
            4 => [
                ON_FULL, OFF, ON_FULL,
                ON_FULL, OFF, ON_FULL,
                ON_FULL, ON_FULL, ON_FULL,
                OFF, OFF, ON_FULL,
                OFF, OFF, ON_FULL,
            ],
            5 => [
                ON_FULL, ON_FULL, ON_FULL,
                ON_FULL, OFF, OFF,
                ON_FULL, ON_FULL, ON_FULL,
                OFF, OFF, ON_FULL,
                ON_FULL, ON_FULL, ON_FULL,
            ],
            6 => [
                OFF, ON_FULL, ON_DIM,
                ON_FULL, OFF, OFF,
                ON_FULL, ON_FULL, ON_FULL,
                ON_FULL, OFF, ON_FULL,
                ON_FULL, ON_FULL, ON_FULL,
            ],
            7 => [
                ON_FULL, ON_FULL, ON_FULL,
                ON_DIM, OFF, ON_FULL,
                OFF, OFF, ON_FULL,
                OFF, ON_FULL, OFF,
                OFF, ON_FULL, OFF,
            ],
            8 => [
                ON_FULL, ON_FULL, ON_FULL,
                ON_FULL, OFF, ON_FULL,
                ON_FULL, ON_FULL, ON_FULL,
                ON_FULL, OFF, ON_FULL,
                ON_FULL, ON_FULL, ON_FULL,
            ],
            9 => [
                ON_FULL, ON_FULL, ON_FULL,
                ON_FULL, OFF, ON_FULL,
                ON_FULL, ON_FULL, ON_FULL,
                OFF, OFF, ON_FULL,
                ON_DIM, ON_FULL, OFF,
            ],
            _ => [
                OFF, ON_FULL, OFF,
                ON_FULL, OFF, ON_FULL,
                ON_FULL, OFF, ON_FULL,
                ON_FULL, OFF, ON_FULL,
                OFF, ON_FULL, OFF,
            ],
        };
        proof {
            assert(out@ =~= digit_glyph(num as int));
        }
        out
    }

    /// The strip of one two-digit number.
    pub fn render_number(num: u32) -> (out: Vec<u8>)
        ensures
            out@ == number_strip(num as int),
    {
        let first_digit = Self::render_digit(num / 10);
        let second_digit = Self::render_digit(num % 10);
        let mut numrow: Vec<u8> = Vec::new();
        let mut idx: usize = 0;
        while idx < 45
            invariant
                idx <= 45,
                numrow@.len() == idx,
                first_digit@ == digit_glyph(num as int / 10),
                second_digit@ == digit_glyph(num as int % 10),
                forall|k: int| 0 <= k < idx ==> #[trigger] numrow@[k] == number_cell(num as int, k),
            decreases 45 - idx,
        {
            let col: usize = idx % 9;
            let line: usize = idx / 9;
            let cell: u8 = if 1 <= col && col <= 3 {
                first_digit[line * 3 + col - 1]
            } else if 5 <= col && col <= 7 {
                second_digit[line * 3 + col - 5]
            } else {
                OFF
            };
            numrow.push(cell);
            idx += 1;
        }
        proof {
            assert(numrow@ =~= number_strip(num as int));
        }
        numrow
    }

    /// The brightness values of the clock face, row after row.
    pub fn get_matrix(&self) -> (out: Vec<u8>)
        ensures
            out@ == clock_face(self.hour as int, self.minute as int),
            out@.len() == 99,
    {
        let mut matrix: Vec<u8> = Self::render_number(self.hour);
        let mut i: usize = 0;
        while i < 9
            invariant
                i <= 9,
                matrix@ == number_strip(self.hour as int) + Seq::new(i as nat, |k: int| 0u8),
            decreases 9 - i,
        {
            matrix.push(OFF);
            proof {
                assert(matrix@ =~= number_strip(self.hour as int) + Seq::new(
                    (i + 1) as nat,
                    |k: int| 0u8,
                ));
            }
            i += 1;
        }
        let mut lower: Vec<u8> = Self::render_number(self.minute);
        matrix.append(&mut lower);
        matrix
    }

    /// The extent of the clock face: 9 columns by 11 rows.
    pub fn get_shape(&self) -> (out: Shape)
        ensures
            out == (Shape { x: 9, y: 11 }),
    {
        Shape { x: 9, y: 11 }
    }
}

} // verus!
