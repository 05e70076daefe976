//! The image as text: a plain PPM stream.
//!
//! The stream is the line that names the format (the letter P and the digit 3
//! for a pixmap in text), a line with the width and the height, the line `255`
//! for the highest level, and then one line for each pixel with its red, green
//! and blue levels, every number in decimal.

use crate::vec3::Vec3;
use vstd::prelude::*;

verus! {

/// A pixel as it is written: three levels from 0 to 255.
#[derive(Clone, Copy, Debug, PartialEq, Eq)]
pub struct Rgb {
    pub r: u8,
    pub g: u8,
    pub b: u8,
}

/// The ASCII character of a decimal digit.
pub open spec fn digit(d: nat) -> u8 {
    (0x30 + d) as u8
}

/// The decimal numeral of `n`, most significant digit first.
pub open spec fn decimal(n: nat) -> Seq<u8>
    decreases n,
{
    if n < 10 {
        seq![digit(n)]
    } else {
        decimal(n / 10).push(digit(n % 10))
    }
}

/// The number that a string of decimal digits spells.
pub open spec fn spelled(digits: Seq<u8>) -> int
    decreases digits.len(),
{
    if digits.len() == 0 {
        0
    } else {
        spelled(digits.drop_last()) * 10 + (digits.last() - 0x30)
    }
}

/// The head of the stream for an image of the given size: the name of the
/// format, the width and the height, the highest level.
pub open spec fn header(width: u32, height: u32) -> Seq<u8> {
    seq![0x50u8, 0x33u8, 0x0Au8] + decimal(width as nat) + seq![0x20u8] + decimal(height as nat)
        + seq![0x0Au8, 0x32u8, 0x35u8, 0x35u8, 0x0Au8]
}

/// The line of one pixel: its three levels, a space between them.
pub open spec fn color_line(c: Rgb) -> Seq<u8> {
    decimal(c.r as nat) + seq![0x20u8] + decimal(c.g as nat) + seq![0x20u8] + decimal(c.b as nat)
        + seq![0x0Au8]
}

/// The lines of the given pixels, one after the other.
pub open spec fn color_lines(pixels: Seq<Rgb>) -> Seq<u8>
    decreases pixels.len(),
{
    if pixels.len() == 0 {
        Seq::empty()
    } else {
        color_lines(pixels.drop_last()) + color_line(pixels.last())
    }
}

/// The whole stream of an image: the head, then the pixels' lines.
pub open spec fn image(width: u32, height: u32, pixels: Seq<Rgb>) -> Seq<u8> {
    header(width, height) + color_lines(pixels)
}

/// What is on the sink after the head and then the pixels' lines were written
/// to it one at a time.
pub open spec fn streamed(width: u32, height: u32, pixels: Seq<Rgb>) -> Seq<u8>
    decreases pixels.len(),
{
    if pixels.len() == 0 {
        header(width, height)
    } else {
        streamed(width, height, pixels.drop_last()) + color_line(pixels.last())
    }
}

/// The number of lines of a stream: its line feeds.
pub open spec fn line_count(bytes: Seq<u8>) -> nat
    decreases bytes.len(),
{
    if bytes.len() == 0 {
        0
    } else if bytes.last() == 0x0Au8 {
        line_count(bytes.drop_last()) + 1
    } else {
        line_count(bytes.drop_last())
    }
}

/// The lines of two streams add up when one follows the other.
pub proof fn lemma_line_count_adds(front: Seq<u8>, back: Seq<u8>)
    ensures
        line_count(front + back) == line_count(front) + line_count(back),
    decreases back.len(),
{
    if back.len() > 0 {
        lemma_line_count_adds(front, back.drop_last());
        assert((front + back).drop_last() =~= front + back.drop_last());
    }
}

/// A numeral never ends a line.
pub proof fn lemma_decimal_has_no_line_end(n: nat)
    ensures
        line_count(decimal(n)) == 0,
    decreases n,
{
    let numeral = decimal(n);
    if n >= 10 {
        lemma_decimal_has_no_line_end(n / 10);
        assert(numeral.drop_last() =~= decimal(n / 10));
    } else {
        assert(numeral.drop_last() =~= Seq::<u8>::empty());
        assert(line_count(Seq::<u8>::empty()) == 0);
    }
}

/// The stream of an image has three lines of head and then exactly one line
/// for each pixel.
pub proof fn lemma_image_line_count(width: u32, height: u32, pixels: Seq<Rgb>)
    ensures
        line_count(header(width, height)) == 3,
        line_count(color_lines(pixels)) == pixels.len(),
        line_count(image(width, height, pixels)) == 3 + pixels.len(),
    decreases pixels.len(),
{
    let space = seq![0x20u8];
    assert(line_count(space) == 0) by {
        assert(space.drop_last() =~= Seq::<u8>::empty());
        assert(line_count(Seq::<u8>::empty()) == 0);
    }
    let line_end = seq![0x0Au8];
    assert(line_count(line_end) == 1) by {
        assert(line_end.drop_last() =~= Seq::<u8>::empty());
        assert(line_count(Seq::<u8>::empty()) == 0);
    }
    let magic = seq![0x50u8, 0x33u8, 0x0Au8];
    assert(line_count(magic) == 1) by {
        reveal_with_fuel(line_count, 4);
    }
    let depth = seq![0x0Au8, 0x32u8, 0x35u8, 0x35u8, 0x0Au8];
    assert(line_count(depth) == 2) by {
        let levels = seq![0x32u8, 0x35u8, 0x35u8];
        assert(line_count(levels) == 0) by {
            reveal_with_fuel(line_count, 4);
        }
        assert(depth =~= line_end + levels + line_end);
        lemma_line_count_adds(line_end, levels);
        lemma_line_count_adds(line_end + levels, line_end);
    }
    lemma_decimal_has_no_line_end(width as nat);
    lemma_decimal_has_no_line_end(height as nat);
    let w = decimal(width as nat);
    let h = decimal(height as nat);
    lemma_line_count_adds(magic, w);
    lemma_line_count_adds(magic + w, space);
    lemma_line_count_adds(magic + w + space, h);
    lemma_line_count_adds(magic + w + space + h, depth);
    if pixels.len() > 0 {
        let c = pixels.last();
        lemma_image_line_count(width, height, pixels.drop_last());
        lemma_decimal_has_no_line_end(c.r as nat);
        lemma_decimal_has_no_line_end(c.g as nat);
        lemma_decimal_has_no_line_end(c.b as nat);
        let r = decimal(c.r as nat);
        let g = decimal(c.g as nat);
        let b = decimal(c.b as nat);
        lemma_line_count_adds(r, space);
        lemma_line_count_adds(r + space, g);
        lemma_line_count_adds(r + space + g, space);
        lemma_line_count_adds(r + space + g + space, b);
        lemma_line_count_adds(r + space + g + space + b, line_end);
        lemma_line_count_adds(color_lines(pixels.drop_last()), color_line(c));
    }
    lemma_line_count_adds(header(width, height), color_lines(pixels));
}

/// A decimal numeral is made of digits, has no leading zero unless it is `0`
/// itself, and spells the number it was made from. So two numbers have the
/// same numeral only if they are equal.
pub proof fn lemma_decimal_spells(n: nat)
    ensures
        decimal(n).len() >= 1,
        forall|i: int| 0 <= i < decimal(n).len() ==> 0x30 <= #[trigger] decimal(n)[i] <= 0x39,
        n > 0 ==> decimal(n)[0] != 0x30,
        spelled(decimal(n)) == n,
    decreases n,
{
    let numeral = decimal(n);
    if n >= 10 {
        lemma_decimal_spells(n / 10);
        assert(numeral.drop_last() =~= decimal(n / 10));
    }
    assert(spelled(numeral) == spelled(numeral.drop_last()) * 10 + (numeral.last() - 0x30));
}

/// The stream of an image grows by lines: each pixel more appends its own line
/// and changes nothing before it.
pub proof fn lemma_image_grows_by_lines(width: u32, height: u32, pixels: Seq<Rgb>, next: Rgb)
    ensures
        image(width, height, Seq::empty()) == header(width, height),
        image(width, height, pixels.push(next)) == image(width, height, pixels) + color_line(next),
{
    assert(pixels.push(next).drop_last() =~= pixels);
}

/// A render that writes each pixel as soon as it is known and a render that
/// gathers all pixels first and writes them at once put the same bytes on the
/// sink, as long as they arrive at the same pixels in the same order.
pub proof fn lemma_streamed_is_gathered(width: u32, height: u32, pixels: Seq<Rgb>)
    ensures
        streamed(width, height, pixels) == image(width, height, pixels),
    decreases pixels.len(),
{
    if pixels.len() > 0 {
        lemma_streamed_is_gathered(width, height, pixels.drop_last());
        lemma_image_grows_by_lines(width, height, pixels.drop_last(), pixels.last());
        assert(pixels.drop_last().push(pixels.last()) =~= pixels);
    } else {
        lemma_image_grows_by_lines(width, height, pixels, Rgb { r: 0, g: 0, b: 0 });
        assert(pixels =~= Seq::<Rgb>::empty());
    }
}

impl Rgb {
    /// The pixel of a colour whose channels are already scaled to the range of
    /// levels: each channel cut to an integer. There is none where a channel
    /// comes out above 255.
    pub open spec fn quantized(scaled: Vec3) -> Option<Rgb> {
        if scaled.x.truncated() <= 255 && scaled.y.truncated() <= 255 && scaled.z.truncated()
            <= 255 {
            Some(
                Rgb {
                    r: scaled.x.truncated() as u8,
                    g: scaled.y.truncated() as u8,
                    b: scaled.z.truncated() as u8,
                },
            )
        } else {
            None
        }
    }

    /// Cuts a scaled colour to a pixel: the part after the point of each
    /// channel is dropped, not rounded.
    pub fn from_scaled(scaled: &Vec3) -> (p: Option<Rgb>)
        ensures
            p == Rgb::quantized(*scaled),
    {
        let r: u32 = scaled.x.to_u32();
        let g: u32 = scaled.y.to_u32();
        let b: u32 = scaled.z.to_u32();
        if r > 255 || g > 255 || b > 255 {
            None
        } else {
            Some(Rgb { r: r as u8, g: g as u8, b: b as u8 })
        }
    }
}

/// Appends the decimal numeral of `n`.
pub fn push_decimal(output: &mut Vec<u8>, n: u32)
    ensures
        final(output)@ == old(output)@ + decimal(n as nat),
    decreases n,
{
    if n >= 10 {
        push_decimal(output, n / 10);
    }
    let d: u8 = (n % 10) as u8;
    output.push(0x30 + d);
}

/// Appends the head of the stream.
pub fn push_header(output: &mut Vec<u8>, width: u32, height: u32)
    ensures
        final(output)@ == old(output)@ + header(width, height),
{
    output.push(0x50);
    output.push(0x33);
    output.push(0x0A);
    push_decimal(output, width);
    output.push(0x20);
    push_decimal(output, height);
    output.push(0x0A);
    output.push(0x32);
    output.push(0x35);
    output.push(0x35);
    output.push(0x0A);
}

/// Appends the line of one pixel.
pub fn push_color(output: &mut Vec<u8>, color: Rgb)
    ensures
        final(output)@ == old(output)@ + color_line(color),
{
    push_decimal(output, color.r as u32);
    output.push(0x20);
    push_decimal(output, color.g as u32);
    output.push(0x20);
    push_decimal(output, color.b as u32);
    output.push(0x0A);
}

} // verus!
