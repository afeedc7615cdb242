//! The module's command protocol: how a command is framed on the wire, the
//! commands themselves, and the reply to the firmware version query.

use crate::matrix::encode;
use vstd::prelude::*;

verus! {

/// Sets the brightness of every LED.
pub const BRIGHTNESS_CMD: u8 = 0x00;

/// Shows a built-in pattern.
pub const PATTERN_CMD: u8 = 0x01;

/// Restarts the module into its bootloader.
pub const BOOTLOADER_CMD: u8 = 0x02;

/// Puts the module to sleep or wakes it.
pub const SLEEP_CMD: u8 = 0x03;

/// Starts or stops scrolling.
pub const ANIMATE_CMD: u8 = 0x04;

/// Makes the firmware panic.
pub const PANIC_CMD: u8 = 0x05;

/// Draws a bit-packed on/off frame.
pub const DRAW_CMD: u8 = 0x06;

/// Stages the brightness values of one column.
pub const SET_COL: u8 = 0x07;

/// Shows the staged columns at once.
pub const COMMIT_COL: u8 = 0x08;

/// Asks for the firmware version.
pub const CHECKFW_CMD: u8 = 0x20;

/// First byte of every command.
pub const SYNC_HI: u8 = 0x32;

/// Second byte of every command.
pub const SYNC_LO: u8 = 0xAC;

/// Number of bytes asked for when the firmware version is read back.
pub const VERSION_REPLY_LEN: usize = 32;

/// Milliseconds to wait for the firmware version.
pub const VERSION_TIMEOUT_MS: u64 = 5000;

/// A command on the wire: the two sync bytes, the opcode, the parameters.
pub open spec fn framed(cmd: u8, params: Seq<u8>) -> Seq<u8> {
    seq![0x32u8, 0xACu8, cmd] + params
}

/// The parameters of the command that stages column `col`: the column's
/// index, then its brightness values from the top row down.
pub open spec fn column_params(col: u8, values: Seq<u8>) -> Seq<u8> {
    seq![col] + values
}

/// Frames a command for the wire.
pub fn frame_command(cmd: u8, params: &[u8]) -> (out: Vec<u8>)
    ensures
        out@ == framed(cmd, params@),
{
    let mut buffer: Vec<u8> = Vec::new();
    buffer.push(SYNC_HI);
    buffer.push(SYNC_LO);
    buffer.push(cmd);
    let mut i: usize = 0;
    while i < params.len()
        invariant
            i <= params@.len(),
            buffer@ == framed(cmd, params@.take(i as int)),
        decreases params@.len() - i,
    {
        buffer.push(params[i]);
        proof {
            assert(params@.take(i + 1) =~= params@.take(i as int).push(params@[i as int]));
            assert(buffer@ =~= framed(cmd, params@.take(i + 1)));
        }
        i += 1;
    }
    proof {
        assert(params@.take(params@.len() as int) =~= params@);
    }
    buffer
}

/// The command that wakes the module.
pub fn wake_command() -> (out: Vec<u8>)
    ensures
        out@ == framed(SLEEP_CMD, seq![0u8]),
{
    let params: [u8; 1] = [0u8];
    let out = frame_command(SLEEP_CMD, params.as_slice());
    proof {
        assert(params@ =~= seq![0u8]);
    }
    out
}

/// The command that puts the module to sleep.
pub fn sleep_command() -> (out: Vec<u8>)
    ensures
        out@ == framed(SLEEP_CMD, seq![1u8]),
{
    let params: [u8; 1] = [1u8];
    let out = frame_command(SLEEP_CMD, params.as_slice());
    proof {
        assert(params@ =~= seq![1u8]);
    }
    out
}

/// The command that sets every LED to brightness `val` (0 is off, 255 full).
pub fn brightness_command(val: u8) -> (out: Vec<u8>)
    ensures
        out@ == framed(BRIGHTNESS_CMD, seq![val]),
{
    let params: [u8; 1] = [val];
    let out = frame_command(BRIGHTNESS_CMD, params.as_slice());
    proof {
        assert(params@ =~= seq![val]);
    }
    out
}

/// The command that draws an on/off frame: the opcode and the 39 packed bytes.
pub fn draw_bool_command(mat: [[bool; 9]; 34]) -> (out: Vec<u8>)
    ensures
        out@.len() == 42,
        out@.take(3) == seq![0x32u8, 0xACu8, DRAW_CMD],
        crate::matrix::bits_of(out@.skip(3)) == crate::matrix::frame_bits(mat),
{
    let buffer = encode(mat);
    let out = frame_command(DRAW_CMD, buffer.as_slice());
    proof {
        assert(out@.take(3) =~= seq![0x32u8, 0xACu8, DRAW_CMD]);
        assert(out@.skip(3) =~= buffer@);
    }
    out
}

/// The command that stages the 34 brightness values of column `col`.
pub fn set_col_command(col: u8, arr: [u8; 34]) -> (out: Vec<u8>)
    ensures
        out@ == framed(SET_COL, column_params(col, arr@)),
{
    let mut params: Vec<u8> = Vec::new();
    params.push(col);
    let mut i: usize = 0;
    while i < 34
        invariant
            i <= 34,
            params@ == column_params(col, arr@.take(i as int)),
        decreases 34 - i,
    {
        params.push(arr[i]);
        proof {
            assert(arr@.take(i + 1) =~= arr@.take(i as int).push(arr@[i as int]));
            assert(params@ =~= column_params(col, arr@.take(i + 1)));
        }
        i += 1;
    }
    proof {
        assert(arr@.take(34) =~= arr@);
    }
    frame_command(SET_COL, params.as_slice())
}

/// The command that shows all staged columns.
pub fn commit_col_command() -> (out: Vec<u8>)
    ensures
        out@ == framed(COMMIT_COL, Seq::<u8>::empty()),
{
    let params: [u8; 0] = [];
    let out = frame_command(COMMIT_COL, params.as_slice());
    proof {
        assert(params@ =~= Seq::<u8>::empty());
    }
    out
}

/// The command that asks for the firmware version.
pub fn check_fw_command() -> (out: Vec<u8>)
    ensures
        out@ == framed(CHECKFW_CMD, Seq::<u8>::empty()),
{
    let params: [u8; 0] = [];
    let out = frame_command(CHECKFW_CMD, params.as_slice());
    proof {
        assert(params@ =~= Seq::<u8>::empty());
    }
    out
}

/// A firmware version as the module reports it.
#[derive(Clone, Copy, Debug, PartialEq, Eq, Structural)]
pub struct FirmwareVersion {
    pub major: u8,
    pub minor: u8,
    pub patch: u8,
    pub pre_release: bool,
}

/// The high nibble of a byte.
pub open spec fn high_nibble(b: u8) -> u8 {
    b / 16
}

/// The low nibble of a byte.
pub open spec fn low_nibble(b: u8) -> u8 {
    b % 16
}

/// What a reply to the version query says: the major version in the first
/// byte, minor and patch in the nibbles of the second, and a third byte that
/// is nonzero for a pre-release. A reply of fewer than three bytes says
/// nothing.
pub open spec fn version_of_reply(reply: Seq<u8>) -> Option<FirmwareVersion> {
    if reply.len() < 3 {
        None
    } else {
        Some(
            FirmwareVersion {
                major: reply[0],
                minor: high_nibble(reply[1]),
                patch: low_nibble(reply[1]),
                pre_release: reply[2] != 0,
            },
        )
    }
}

/// The character of a decimal digit.
pub open spec fn digit_char(d: int) -> char {
    if d == 0 {
        '0'
    } else if d == 1 {
        '1'
    } else if d == 2 {
        '2'
    } else if d == 3 {
        '3'
    } else if d == 4 {
        '4'
    } else if d == 5 {
        '5'
    } else if d == 6 {
        '6'
    } else if d == 7 {
        '7'
    } else if d == 8 {
        '8'
    } else {
        '9'
    }
}

/// A number in decimal, without leading zeros.
pub open spec fn decimal_text(n: nat) -> Seq<char>
    decreases n,
{
    if n < 10 {
        seq![digit_char(n as int)]
    } else {
        decimal_text(n / 10).push(digit_char((n % 10) as int))
    }
}

/// A truth value in words.
pub open spec fn bool_text(b: bool) -> Seq<char> {
    if b {
        seq!['t', 'r', 'u', 'e']
    } else {
        seq!['f', 'a', 'l', 's', 'e']
    }
}

/// A version as shown to the user: `major.minor.patch Pre Release: flag`.
pub open spec fn version_text(v: FirmwareVersion) -> Seq<char> {
    decimal_text(v.major as nat) + seq!['.'] + decimal_text(v.minor as nat) + seq!['.']
        + decimal_text(v.patch as nat) + seq![
        ' ',
        'P',
        'r',
        'e',
        ' ',
        'R',
        'e',
        'l',
        'e',
        'a',
        's',
        'e',
        ':',
        ' ',
    ] + bool_text(v.pre_release)
}

/// What is shown for a reply to the version query: the version's text, or
/// nothing where the reply is too short.
pub open spec fn reply_text(reply: Seq<u8>) -> Seq<char> {
    match version_of_reply(reply) {
        Some(v) => version_text(v),
        None => Seq::<char>::empty(),
    }
}

proof fn lemma_nibbles(b: u8)
    by (bit_vector)
    ensures
        (b & 0xF0u8) >> 4u8 == b / 16u8,
        b & 0x0Fu8 == b % 16u8,
{
}

/// Reads the version out of a reply to the version query.
pub fn decode_fw_version(reply: &[u8]) -> (out: Option<FirmwareVersion>)
    ensures
        out == version_of_reply(reply@),
{
    if reply.len() < 3 {
        return None;
    }
    let major: u8 = reply[0];
    let minor: u8 = (reply[1] & 0xF0u8) >> 4u8;
    let patch: u8 = reply[1] & 0x0Fu8;
    let pre_release: bool = reply[2] != 0;
    proof {
        lemma_nibbles(reply[1]);
    }
    Some(FirmwareVersion { major, minor, patch, pre_release })
}

fn digit_str(d: u8) -> (out: &'static str)
    requires
        d < 10,
    ensures
        out@ == seq![digit_char(d as int)],
{
    proof {
        reveal_strlit("0");
        reveal_strlit("1");
        reveal_strlit("2");
        reveal_strlit("3");
        reveal_strlit("4");
        reveal_strlit("5");
        reveal_strlit("6");
        reveal_strlit("7");
        reveal_strlit("8");
        reveal_strlit("9");
    }
    let out = match d {
        0 => "0",
        1 => "1",
        2 => "2",
        3 => "3",
        4 => "4",
        5 => "5",
        6 => "6",
        7 => "7",
        8 => "8",
        _ => "9",
    };
    assert(out@ =~= seq![digit_char(d as int)]);
    out
}

fn push_decimal(text: &mut String, n: u8)
    ensures
        final(text)@ == old(text)@ + decimal_text(n as nat),
{
    proof {
        reveal_with_fuel(decimal_text, 3);
    }
    if n >= 100 {
        text.append(digit_str(n / 100));
        text.append(digit_str((n / 10) % 10));
        text.append(digit_str(n % 10));
    } else if n >= 10 {
        text.append(digit_str(n / 10));
        text.append(digit_str(n % 10));
    } else {
        text.append(digit_str(n));
    }
    assert(final(text)@ =~= old(text)@ + decimal_text(n as nat));
}

/// The text shown for a firmware version.
pub fn format_fw_version(v: FirmwareVersion) -> (out: String)
    ensures
        out@ == version_text(v),
{
    proof {
        reveal_strlit(".");
        reveal_strlit(" Pre Release: ");
        reveal_strlit("true");
        reveal_strlit("false");
    }
    let mut text = String::new();
    push_decimal(&mut text, v.major);
    text.append(".");
    push_decimal(&mut text, v.minor);
    text.append(".");
    push_decimal(&mut text, v.patch);
    text.append(" Pre Release: ");
    if v.pre_release {
        text.append("true");
    } else {
        text.append("false");
    }
    assert(text@ =~= version_text(v));
    text
}

/// The text shown for a reply to the version query: empty where the reply
/// has fewer than three bytes.
pub fn fw_version_text(reply: &[u8]) -> (out: String)
    ensures
        out@ == reply_text(reply@),
{
    match decode_fw_version(reply) {
        Some(v) => format_fw_version(v),
        None => String::new(),
    }
}

} // verus!
