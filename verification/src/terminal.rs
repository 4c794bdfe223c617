//! The terminal as a render target: one coloured block per key, drawn with
//! ANSI escape sequences from the top left corner of a cleared screen.
use crate::display::Rgb;
use vstd::prelude::*;

verus! {

/// `ESC [ 2 J  ESC [ 1 ; 1 H`: clear the screen, cursor to the top left.
pub const CLEAR_SCREEN: [u8; 10] = [0x1B, 0x5B, 0x32, 0x4A, 0x1B, 0x5B, 0x31, 0x3B, 0x31, 0x48];

/// `ESC [ 3 8 ; 2 ;`: start of a 24-bit foreground colour.
pub const COLOUR_OPEN: [u8; 7] = [0x1B, 0x5B, 0x33, 0x38, 0x3B, 0x32, 0x3B];

/// `m` and the full block U+2588 in UTF-8: end of the colour sequence, then
/// the glyph drawn in that colour.
pub const COLOUR_CLOSE_AND_GLYPH: [u8; 4] = [0x6D, 0xE2, 0x96, 0x88];

/// `ESC [ 0 m`: back to the default colours.
pub const COLOUR_RESET: [u8; 4] = [0x1B, 0x5B, 0x30, 0x6D];

/// `;`, which separates the three channels.
pub const SEPARATOR: u8 = 0x3B;

/// The ASCII digit for a value below ten.
pub open spec fn digit(value: nat) -> u8 {
    (0x30 + value) as u8
}

/// A number in decimal, as ASCII digits without leading zeros.
pub open spec fn decimal(value: nat) -> Seq<u8>
    decreases value,
{
    if value < 10 {
        seq![digit(value)]
    } else {
        decimal(value / 10).push(digit(value % 10))
    }
}

/// The bytes that draw one key in the given colour.
pub open spec fn cell(colour: Rgb) -> Seq<u8> {
    COLOUR_OPEN@ + decimal(colour.0 as nat) + seq![SEPARATOR] + decimal(colour.1 as nat)
        + seq![SEPARATOR] + decimal(colour.2 as nat) + COLOUR_CLOSE_AND_GLYPH@ + COLOUR_RESET@
}

/// The bytes that draw a row of keys, lowest key first.
pub open spec fn row(colours: Seq<Rgb>) -> Seq<u8>
    decreases colours.len(),
{
    if colours.len() == 0 {
        Seq::empty()
    } else {
        row(colours.drop_last()) + cell(colours.last())
    }
}

/// The bytes of a whole frame: the screen is cleared, then the row drawn.
pub open spec fn frame_bytes(colours: Seq<Rgb>) -> Seq<u8> {
    CLEAR_SCREEN@ + row(colours)
}

/// Appends `value` in decimal.
fn push_decimal(out: &mut Vec<u8>, value: u8)
    ensures
        final(out)@ == old(out)@ + decimal(value as nat),
{
    let ghost start = out@;
    if value >= 100 {
        out.push(0x30 + value / 100);
    }
    if value >= 10 {
        out.push(0x30 + (value / 10) % 10);
    }
    out.push(0x30 + value % 10);
    proof {
        reveal_with_fuel(decimal, 3);
        assert(out@ =~= start + decimal(value as nat));
    }
}

/// Appends the bytes that draw one key.
fn push_cell(out: &mut Vec<u8>, colour: Rgb)
    ensures
        final(out)@ == old(out)@ + cell(colour),
{
    let ghost start = out@;
    out.extend_from_slice(COLOUR_OPEN.as_slice());
    push_decimal(out, colour.0);
    out.push(SEPARATOR);
    push_decimal(out, colour.1);
    out.push(SEPARATOR);
    push_decimal(out, colour.2);
    out.extend_from_slice(COLOUR_CLOSE_AND_GLYPH.as_slice());
    out.extend_from_slice(COLOUR_RESET.as_slice());
    proof {
        assert(out@ =~= start + cell(colour));
    }
}

/// The terminal render target.
pub struct Terminal {}

impl Terminal {
    /// The terminal holds no state of its own: every frame redraws it.
    pub fn new() -> Self {
        Terminal {  }
    }

    /// The bytes to write to the terminal for one tick: the screen is
    /// cleared and one block is drawn per key, in the key's colour.
    pub fn frame(&self, colours: &[Rgb]) -> (bytes: Vec<u8>)
        ensures
            bytes@ == frame_bytes(colours@),
    {
        let mut bytes: Vec<u8> = Vec::new();
        bytes.extend_from_slice(CLEAR_SCREEN.as_slice());
        let mut key: usize = 0;
        while key < colours.len()
            invariant
                key <= colours.len(),
                bytes@ == CLEAR_SCREEN@ + row(colours@.subrange(0, key as int)),
            decreases colours.len() - key,
        {
            let ghost drawn = colours@.subrange(0, key as int);
            push_cell(&mut bytes, colours[key]);
            key += 1;
            proof {
                let now = colours@.subrange(0, key as int);
                assert(now.drop_last() =~= drawn);
                assert(bytes@ =~= CLEAR_SCREEN@ + row(now));
            }
        }
        proof {
            assert(colours@.subrange(0, key as int) =~= colours@);
        }
        bytes
    }
}

} // verus!
