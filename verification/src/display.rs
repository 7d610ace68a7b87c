//! What the station shows: where centered text is placed on the display
//! and the lines of text it writes there.

use vstd::prelude::*;
use embedded_graphics::geometry::{Point, Size};
use embedded_graphics::primitives::Rectangle;
use crate::text::{decimal, push_decimal, is_decimal_of, lemma_decimal_is_numeral};

verus! {

/// How far below the display's center the text is anchored, in pixels.
pub const TEXT_OFFSET_Y: i32 = 15;

/// The offset from a rectangle's first pixel to its center pixel along a
/// side of `len` pixels.
pub open spec fn center_offset(len: u32) -> int {
    if len == 0 {
        0
    } else {
        (len - 1) / 2
    }
}

/// The center of the rectangle with top-left corner `(x, y)` and size
/// `width` x `height`, computed by embedded-graphics' `Rectangle::center`,
/// which adds half of each side length less one (and not less than zero)
/// to the top-left corner.
#[verifier::external_body]
fn rectangle_center(x: i32, y: i32, width: u32, height: u32) -> (c: (i32, i32))
    requires
        x + center_offset(width) <= i32::MAX,
        y + center_offset(height) <= i32::MAX,
    ensures
        c.0 == x + center_offset(width),
        c.1 == y + center_offset(height),
{
    let c = Rectangle::new(Point::new(x, y), Size::new(width, height)).center();
    (c.x, c.y)
}

/// The anchor of centered text on a display whose bounding box has its
/// top-left corner at `(x, y)` and the size `width` x `height`: the box's
/// center, `TEXT_OFFSET_Y` pixels lower.
pub fn text_anchor(x: i32, y: i32, width: u32, height: u32) -> (p: (i32, i32))
    requires
        x + center_offset(width) <= i32::MAX,
        y + center_offset(height) + TEXT_OFFSET_Y <= i32::MAX,
    ensures
        p.0 == x + center_offset(width),
        p.1 == y + center_offset(height) + TEXT_OFFSET_Y,
        width >= 1 ==> p.0 == x + (width - 1) / 2,
        width == 0 ==> p.0 == x,
        height >= 1 ==> p.1 == y + (height - 1) / 2 + 15,
        height == 0 ==> p.1 == y + 15,
{
    let (cx, cy) = rectangle_center(x, y, width, height);
    (cx, cy + TEXT_OFFSET_Y)
}

/// The line that reports a measurement.
pub open spec fn status_text_spec(temperature: u16, capacitance: u16) -> Seq<char> {
    "Temp: "@ + decimal(temperature as nat) + "C and Cap: "@ + decimal(capacitance as nat)
}

/// The status line carries the temperature after "Temp: " and the
/// capacitance after "C and Cap: ", each as a decimal numeral that reads
/// back as the value given.
pub proof fn lemma_status_text_reads_back(temperature: u16, capacitance: u16)
    ensures
        exists|x: Seq<char>, y: Seq<char>|
            #![trigger is_decimal_of(x, temperature as nat), is_decimal_of(y, capacitance as nat)]
            status_text_spec(temperature, capacitance) == "Temp: "@ + x + "C and Cap: "@ + y
                && is_decimal_of(x, temperature as nat) && is_decimal_of(y, capacitance as nat),
{
    let x = decimal(temperature as nat);
    let y = decimal(capacitance as nat);
    lemma_decimal_is_numeral(temperature as nat);
    lemma_decimal_is_numeral(capacitance as nat);
    assert(status_text_spec(temperature, capacitance) == "Temp: "@ + x + "C and Cap: "@ + y);
}

/// Builds the line that reports a temperature and a capacitance reading.
pub fn status_text(temperature: u16, capacitance: u16) -> (s: String)
    ensures
        s@ == status_text_spec(temperature, capacitance),
        exists|x: Seq<char>, y: Seq<char>|
            #![trigger is_decimal_of(x, temperature as nat), is_decimal_of(y, capacitance as nat)]
            s@ == "Temp: "@ + x + "C and Cap: "@ + y && is_decimal_of(x, temperature as nat)
                && is_decimal_of(y, capacitance as nat),
{
    proof {
        lemma_status_text_reads_back(temperature, capacitance);
    }
    let mut s = String::from_str("Temp: ");
    push_decimal(&mut s, temperature as u32);
    s.append("C and Cap: ");
    push_decimal(&mut s, capacitance as u32);
    s
}

/// Builds the line shown when the station could not start measuring, for
/// the error description `reason`.
pub fn init_error_text(reason: &str) -> (s: String)
    ensures
        s@ == "Error in initializing main loop: "@ + reason@,
{
    let mut s = String::from_str("Error in initializing main loop: ");
    s.append(reason);
    s
}

} // verus!
