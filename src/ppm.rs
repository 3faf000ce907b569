use vstd::prelude::*;

verus! {

/// The ASCII code of the digit `0`.
pub const DIGIT_ZERO: u8 = 48;

/// The ASCII code of a space.
pub const SPACE: u8 = 32;

/// The ASCII code of a line feed.
pub const NEWLINE: u8 = 10;

/// The decimal digits of `n`, most significant first, with no leading zero.
pub open spec fn decimal(n: nat) -> Seq<u8>
    decreases n,
{
    if n < 10 {
        seq![(DIGIT_ZERO + n) as u8]
    } else {
        decimal(n / 10).push((DIGIT_ZERO + n % 10) as u8)
    }
}

/// The header of a plain-text PPM image: `P3`, then `<width> <height>`, then
/// the largest channel value `255`, one per line.
pub open spec fn header_text(width: nat, height: nat) -> Seq<u8> {
    seq![80u8, 51u8, NEWLINE] + decimal(width) + seq![SPACE] + decimal(height) + seq![NEWLINE]
        + seq![50u8, 53u8, 53u8, NEWLINE]
}

/// One pixel's line: its three channels in decimal, separated by spaces.
pub open spec fn pixel_text(r: u8, g: u8, b: u8) -> Seq<u8> {
    decimal(r as nat) + seq![SPACE] + decimal(g as nat) + seq![SPACE] + decimal(b as nat)
        + seq![NEWLINE]
}

/// The lines of a row of pixels, left to right.
pub open spec fn row_text(pixels: Seq<(u8, u8, u8)>) -> Seq<u8>
    decreases pixels.len(),
{
    if pixels.len() == 0 {
        Seq::empty()
    } else {
        let p = pixels.last();
        row_text(pixels.drop_last()) + pixel_text(p.0, p.1, p.2)
    }
}

/// Appends the decimal digits of `n`.
pub fn write_decimal(out: &mut Vec<u8>, n: u32)
    ensures
        final(out)@ == old(out)@ + decimal(n as nat),
    decreases n,
{
    if n >= 10 {
        write_decimal(out, n / 10);
    }
    out.push(DIGIT_ZERO + (n % 10) as u8);
    proof {
        assert(final(out)@ =~= old(out)@ + decimal(n as nat));
    }
}

/// Appends the header of a `width` by `height` image.
pub fn write_header(out: &mut Vec<u8>, width: u32, height: u32)
    ensures
        final(out)@ == old(out)@ + header_text(width as nat, height as nat),
{
    out.push(80u8);
    out.push(51u8);
    out.push(NEWLINE);
    write_decimal(out, width);
    out.push(SPACE);
    write_decimal(out, height);
    out.push(NEWLINE);
    out.push(50u8);
    out.push(53u8);
    out.push(53u8);
    out.push(NEWLINE);
    proof {
        assert(final(out)@ =~= old(out)@ + header_text(width as nat, height as nat));
    }
}

/// Appends one pixel's line, given its channels already quantised to bytes.
pub fn write_pixel(out: &mut Vec<u8>, r: u8, g: u8, b: u8)
    ensures
        final(out)@ == old(out)@ + pixel_text(r, g, b),
{
    write_decimal(out, r as u32);
    out.push(SPACE);
    write_decimal(out, g as u32);
    out.push(SPACE);
    write_decimal(out, b as u32);
    out.push(NEWLINE);
    proof {
        assert(final(out)@ =~= old(out)@ + pixel_text(r, g, b));
    }
}

/// Appends the lines of a finished row, left to right.
pub fn write_line(out: &mut Vec<u8>, pixels: &Vec<(u8, u8, u8)>)
    ensures
        final(out)@ == old(out)@ + row_text(pixels@),
{
    let mut i: usize = 0;
    while i < pixels.len()
        invariant
            0 <= i <= pixels.len(),
            out@ == old(out)@ + row_text(pixels@.take(i as int)),
        decreases pixels.len() - i,
    {
        let (r, g, b) = pixels[i];
        write_pixel(out, r, g, b);
        proof {
            let next = pixels@.take(i + 1);
            assert(next.drop_last() =~= pixels@.take(i as int));
            assert(out@ =~= old(out)@ + row_text(next));
        }
        i = i + 1;
    }
    proof {
        assert(pixels@.take(i as int) =~= pixels@);
    }
}

} // verus!
