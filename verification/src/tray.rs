//! The icon in the system tray.

use vstd::prelude::*;

verus! {

/// The width and the height of the icon, in pixels.
pub const ICON_SIZE: u32 = 64;

#[derive(Clone, Copy, Debug, PartialEq, Eq, Structural)]
pub enum TrayCommand {
    Show,
    Quit,
}

/// The byte at `i` belongs to a pixel of which all four bytes are there.
pub open spec fn whole_pixel(len: int, i: int) -> bool {
    i / 4 * 4 + 4 <= len
}

/// A color channel that was multiplied by the opacity, divided by it again and
/// rounded.
pub open spec fn divided_channel(channel: u8, alpha: u8) -> u8 {
    let value = (channel as int * 255 + alpha as int / 2) / (alpha as int);
    if value > 255 {
        255
    } else {
        value as u8
    }
}

/// Pixels of red, green, blue and opacity whose colors are no longer multiplied by
/// the opacity. Those that are fully transparent or opaque stay as they are.
pub open spec fn straight_pixels(pixels: Seq<u8>) -> Seq<u8> {
    Seq::new(
        pixels.len(),
        |i: int|
            {
                let alpha = pixels[i / 4 * 4 + 3];
                if !whole_pixel(pixels.len() as int, i) || i % 4 == 3 || alpha == 0 || alpha
                    == 255 {
                    pixels[i]
                } else {
                    divided_channel(pixels[i], alpha)
                }
            },
    )
}

fn divide_channel(channel: u8, alpha: u8) -> (value: u8)
    requires
        alpha > 0,
    ensures
        value == divided_channel(channel, alpha),
{
    let value: u16 = (channel as u16 * 255 + alpha as u16 / 2) / alpha as u16;
    if value > 255 {
        255
    } else {
        value as u8
    }
}

/// Takes the opacity out of the colors of rendered pixels.
pub fn unpremultiply(pixels: &mut Vec<u8>)
    ensures
        final(pixels)@ == straight_pixels(old(pixels)@),
{
    let ghost before = pixels@;
    let mut start: usize = 0;
    let length: usize = pixels.len();
    while start < length && 4 <= length - start
        invariant
            start <= length,
            start % 4 == 0,
            length == pixels@.len(),
            length == before.len(),
            forall|i: int| 0 <= i < start ==> pixels@[i] == #[trigger] straight_pixels(before)[i],
            forall|i: int| start <= i < length ==> #[trigger] pixels@[i] == before[i],
        decreases length - start,
    {
        let alpha: u8 = pixels[start + 3];
        if alpha != 0 && alpha != 255 {
            let red = divide_channel(pixels[start], alpha);
            let green = divide_channel(pixels[start + 1], alpha);
            let blue = divide_channel(pixels[start + 2], alpha);
            pixels.set(start, red);
            pixels.set(start + 1, green);
            pixels.set(start + 2, blue);
        }
        proof {
            assert forall|i: int| start <= i < start + 4 implies pixels@[i]
                == #[trigger] straight_pixels(before)[i] by {
                assert(i / 4 * 4 == start);
                assert(i % 4 == i - start);
            }
        }
        start += 4;
    }
    assert forall|i: int| start <= i < length implies pixels@[i] == #[trigger] straight_pixels(
        before,
    )[i] by {
        assert(i / 4 * 4 == start);
    }
    assert(pixels@ =~= straight_pixels(before));
}

/// Pixels with the opacity in front of the colors instead of behind them.
pub open spec fn opacity_first(pixels: Seq<u8>) -> Seq<u8> {
    Seq::new(
        pixels.len(),
        |i: int|
            if !whole_pixel(pixels.len() as int, i) {
                pixels[i]
            } else if i % 4 == 0 {
                pixels[i + 3]
            } else {
                pixels[i - 1]
            },
    )
}

/// Turns pixels of red, green, blue and opacity into those that start with the
/// opacity.
pub fn move_opacity_first(pixels: &mut Vec<u8>)
    ensures
        final(pixels)@ == opacity_first(old(pixels)@),
{
    let ghost before = pixels@;
    let mut start: usize = 0;
    let length: usize = pixels.len();
    while start < length && 4 <= length - start
        invariant
            start <= length,
            start % 4 == 0,
            length == pixels@.len(),
            length == before.len(),
            forall|i: int| 0 <= i < start ==> pixels@[i] == #[trigger] opacity_first(before)[i],
            forall|i: int| start <= i < length ==> #[trigger] pixels@[i] == before[i],
        decreases length - start,
    {
        let red: u8 = pixels[start];
        let green: u8 = pixels[start + 1];
        let blue: u8 = pixels[start + 2];
        let alpha: u8 = pixels[start + 3];
        pixels.set(start, alpha);
        pixels.set(start + 1, red);
        pixels.set(start + 2, green);
        pixels.set(start + 3, blue);
        proof {
            assert forall|i: int| start <= i < start + 4 implies pixels@[i]
                == #[trigger] opacity_first(before)[i] by {
                assert(i / 4 * 4 == start);
                assert(i % 4 == i - start);
            }
        }
        start += 4;
    }
    proof {
        let after = opacity_first(before);
        assert forall|i: int| 0 <= i < length implies #[trigger] pixels@[i] == after[i] by {
            if i >= start {
                assert(i / 4 * 4 == start);
                assert(!whole_pixel(length as int, i));
                assert(after[i] == before[i]);
            } else {
                assert(opacity_first(before)[i] == after[i]);
            }
        }
        assert(pixels@ =~= after);
    }
}

/// The opacity of a pixel moves in front of its colors, which keep their order; bytes that
/// make up no pixel stay.
pub proof fn opacity_moves_in_front(pixels: Seq<u8>, pixel: int)
    requires
        0 <= pixel,
        4 * pixel + 3 < pixels.len(),
    ensures
        opacity_first(pixels).len() == pixels.len(),
        opacity_first(pixels)[4 * pixel] == pixels[4 * pixel + 3],
        opacity_first(pixels)[4 * pixel + 1] == pixels[4 * pixel],
        opacity_first(pixels)[4 * pixel + 2] == pixels[4 * pixel + 1],
        opacity_first(pixels)[4 * pixel + 3] == pixels[4 * pixel + 2],
        forall|i: int|
            0 <= i < pixels.len() && i >= pixels.len() / 4 * 4 ==> #[trigger] opacity_first(
                pixels,
            )[i] == pixels[i],
{
}

/// Taking the opacity out of a color undoes putting it in, to the nearest: of a pixel whose
/// color is at most its opacity the color that results gives that color again, within half
/// a step.
pub proof fn straight_colors_multiply_back(channel: u8, alpha: u8)
    requires
        0 < channel <= alpha,
    ensures
        ({
            let straight = divided_channel(channel, alpha) as int;
            &&& -(alpha as int) <= 2 * (straight * alpha - channel * 255) <= alpha
            &&& channel == alpha ==> straight == 255
        }),
        divided_channel(0, alpha) == 0,
{
    let a = alpha as int;
    let top = channel as int * 255 + a / 2;
    let value = top / a;
    assert(value * a <= top < value * a + a) by (nonlinear_arith)
        requires
            a > 0,
            value == top / a,
    ;
    assert(value <= 255) by (nonlinear_arith)
        requires
            value * a <= top,
            top <= a * 255 + a / 2,
            a > 0,
    ;
    if channel == alpha {
        assert(value >= 255) by (nonlinear_arith)
            requires
                top < value * a + a,
                top >= a * 255,
                a > 0,
        ;
    }
    assert((0 * 255 + a / 2) / a == 0) by (nonlinear_arith)
        requires
            a > 0,
    ;
}

/// Pixels that are opaque or fully transparent keep their colors, and every pixel keeps
/// its opacity.
pub proof fn opaque_pixels_stay(pixels: Seq<u8>, pixel: int, channel: int)
    requires
        0 <= pixel,
        4 * pixel + 3 < pixels.len(),
        0 <= channel < 3,
    ensures
        ({
            let after = straight_pixels(pixels);
            let alpha = pixels[4 * pixel + 3];
            &&& after.len() == pixels.len()
            &&& after[4 * pixel + 3] == alpha
            &&& alpha == 0 || alpha == 255 ==> after[4 * pixel + channel] == pixels[4 * pixel
                + channel]
            &&& 0 < alpha < 255 ==> after[4 * pixel + channel] == divided_channel(
                pixels[4 * pixel + channel],
                alpha,
            )
        }),
{
}

} // verus!
