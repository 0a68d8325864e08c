//! The document as SVG text.
//!
//! Every text here is built by adding to the end of what is there: the
//! definitions take the text so far and give the longer text.
//!
//! Coordinates and heights are written with three digits after the point,
//! rounded from the number times 1000; what is no number is written as `0`.

use crate::number::Number;
use crate::render::{Document, Rgb, Shape};
use vstd::prelude::*;
use vstd::string::{StrSliceExecFns, StringExecFns};

verus! {

/// The pattern of 1000.0.
pub const THOUSAND_BITS: u64 = 0x408F_4000_0000_0000;

/// The pattern of 0.5.
pub const ROUNDING_BITS: u64 = 0x3FE0_0000_0000_0000;

/// The text of one decimal digit.
pub open spec fn digit_text(d: nat) -> Seq<char> {
    if d == 0 {
        "0"@
    } else if d == 1 {
        "1"@
    } else if d == 2 {
        "2"@
    } else if d == 3 {
        "3"@
    } else if d == 4 {
        "4"@
    } else if d == 5 {
        "5"@
    } else if d == 6 {
        "6"@
    } else if d == 7 {
        "7"@
    } else if d == 8 {
        "8"@
    } else {
        "9"@
    }
}

/// `so_far` and the decimal digits of `n`, without leading zeros.
pub open spec fn with_digits(so_far: Seq<char>, n: nat) -> Seq<char>
    decreases n,
{
    if n < 10 {
        so_far + digit_text(n)
    } else {
        with_digits(so_far, n / 10) + digit_text(n % 10)
    }
}

/// How many thousandths a number has, rounded to the nearest and cut off at
/// `u64::MAX`; `None` for what is no number.
pub open spec fn thousandths(x: Number) -> Option<u64> {
    (Number { bits: x.magnitude() }).times_spec(Number { bits: THOUSAND_BITS }).plus_spec(
        Number { bits: ROUNDING_BITS },
    ).count_spec()
}

/// `so_far` and a number, with three digits after the point.
pub open spec fn with_decimal(so_far: Seq<char>, x: Number) -> Seq<char> {
    match thousandths(x) {
        None => so_far + "0"@,
        Some(k) => {
            let signed = if x.sign_set() && k > 0 {
                so_far + "-"@
            } else {
                so_far
            };
            with_digits(signed, k as nat / 1000) + "."@ + digit_text(k as nat / 100 % 10)
                + digit_text(k as nat / 10 % 10) + digit_text(k as nat % 10)
        },
    }
}

/// `so_far` and a colour, as `rgb(r,g,b)`.
pub open spec fn with_color(so_far: Seq<char>, color: Rgb) -> Seq<char> {
    with_digits(
        with_digits(with_digits(so_far + "rgb("@, color.red as nat) + ","@, color.green as nat)
            + ","@,
        color.blue as nat,
    ) + ")"@
}

/// `so_far` and the first `upto` characters of `text`, with `&`, `<`, `>`
/// and `"` written as entities.
pub open spec fn with_escaped(so_far: Seq<char>, text: Seq<char>, upto: nat) -> Seq<char>
    decreases upto,
{
    if upto == 0 || upto > text.len() {
        so_far
    } else {
        let before = with_escaped(so_far, text, (upto - 1) as nat);
        let c = text[upto - 1];
        if c == '&' {
            before + "&amp;"@
        } else if c == '<' {
            before + "&lt;"@
        } else if c == '>' {
            before + "&gt;"@
        } else if c == '"' {
            before + "&quot;"@
        } else {
            before + text.subrange(upto - 1, upto as int)
        }
    }
}

/// `so_far` and the element of one shape, on a line of its own.
pub open spec fn with_shape(so_far: Seq<char>, shape: Shape) -> Seq<char> {
    match shape {
        Shape::Stroke { from, to, color } => with_color(
            with_decimal(
                with_decimal(
                    with_decimal(with_decimal(so_far + "<line x1=\""@, from.x) + "\" y1=\""@, from.y)
                        + "\" x2=\""@,
                    to.x,
                ) + "\" y2=\""@,
                to.y,
            ) + "\" stroke=\""@,
            color,
        ) + "\" stroke-width=\"1\"/>\n"@,
        Shape::Text { at, height, text, color } => with_escaped(
            with_color(
                with_decimal(
                    with_decimal(with_decimal(so_far + "<text x=\""@, at.x) + "\" y=\""@, at.y)
                        + "\" font-size=\""@,
                    height,
                ) + "\" fill=\""@,
                color,
            ) + "\">"@,
            text@,
            text@.len(),
        ) + "</text>\n"@,
    }
}

/// `so_far` and the elements of the first `upto` shapes, in their order.
pub open spec fn with_shapes(so_far: Seq<char>, shapes: Seq<Shape>, upto: nat) -> Seq<char>
    decreases upto,
{
    if upto == 0 || upto > shapes.len() {
        so_far
    } else {
        with_shape(with_shapes(so_far, shapes, (upto - 1) as nat), shapes[upto - 1])
    }
}

/// The opening tag of a canvas of `size` by `size`.
pub open spec fn opening(size: u32) -> Seq<char> {
    with_digits(
        with_digits(
            with_digits(
                with_digits(
                    "<svg xmlns=\"http://www.w3.org/2000/svg\" width=\""@,
                    size as nat,
                ) + "\" height=\""@,
                size as nat,
            ) + "\" viewBox=\"0 0 "@,
            size as nat,
        ) + " "@,
        size as nat,
    ) + "\">\n"@
}

/// The SVG text of a canvas and its shapes: the opening tag, one element for
/// each shape, the earliest first, and the closing tag.
pub open spec fn svg_of(size: u32, shapes: Seq<Shape>) -> Seq<char> {
    with_shapes(opening(size), shapes, shapes.len()) + "</svg>\n"@
}

fn digit_str(d: u64) -> (r: &'static str)
    requires
        d < 10,
    ensures
        r@ == digit_text(d as nat),
{
    if d == 0 {
        "0"
    } else if d == 1 {
        "1"
    } else if d == 2 {
        "2"
    } else if d == 3 {
        "3"
    } else if d == 4 {
        "4"
    } else if d == 5 {
        "5"
    } else if d == 6 {
        "6"
    } else if d == 7 {
        "7"
    } else if d == 8 {
        "8"
    } else {
        "9"
    }
}

fn write_digits(out: &mut String, n: u64)
    ensures
        final(out)@ == with_digits(old(out)@, n as nat),
    decreases n,
{
    if n >= 10 {
        write_digits(out, n / 10);
    }
    out.append(digit_str(n % 10));
}

fn write_decimal(out: &mut String, x: Number)
    ensures
        final(out)@ == with_decimal(old(out)@, x),
{
    let scaled = Number::from_bits(x.abs_bits()).times(Number::from_bits(THOUSAND_BITS)).plus(
        Number::from_bits(ROUNDING_BITS),
    );
    match scaled.to_count() {
        None => {
            out.append("0");
        },
        Some(k) => {
            if x.to_bits() >= crate::number::SIGN_BIT && k > 0 {
                out.append("-");
            }
            write_digits(out, k / 1000);
            out.append(".");
            out.append(digit_str(k / 100 % 10));
            out.append(digit_str(k / 10 % 10));
            out.append(digit_str(k % 10));
        },
    }
}

fn write_color(out: &mut String, color: Rgb)
    ensures
        final(out)@ == with_color(old(out)@, color),
{
    out.append("rgb(");
    write_digits(out, color.red as u64);
    out.append(",");
    write_digits(out, color.green as u64);
    out.append(",");
    write_digits(out, color.blue as u64);
    out.append(")");
}

fn write_escaped(out: &mut String, text: &str)
    ensures
        final(out)@ == with_escaped(old(out)@, text@, text@.len()),
{
    let length = text.unicode_len();
    let mut i: usize = 0;
    while i < length
        invariant
            i <= length,
            length == text@.len(),
            out@ == with_escaped(old(out)@, text@, i as nat),
        decreases length - i,
    {
        let c = text.get_char(i);
        if c == '&' {
            out.append("&amp;");
        } else if c == '<' {
            out.append("&lt;");
        } else if c == '>' {
            out.append("&gt;");
        } else if c == '"' {
            out.append("&quot;");
        } else {
            out.append(text.substring_char(i, i + 1));
        }
        i = i + 1;
    }
}

fn write_shape(out: &mut String, shape: &Shape)
    ensures
        final(out)@ == with_shape(old(out)@, *shape),
{
    match shape {
        Shape::Stroke { from, to, color } => {
            out.append("<line x1=\"");
            write_decimal(out, from.x);
            out.append("\" y1=\"");
            write_decimal(out, from.y);
            out.append("\" x2=\"");
            write_decimal(out, to.x);
            out.append("\" y2=\"");
            write_decimal(out, to.y);
            out.append("\" stroke=\"");
            write_color(out, *color);
            out.append("\" stroke-width=\"1\"/>\n");
        },
        Shape::Text { at, height, text, color } => {
            out.append("<text x=\"");
            write_decimal(out, at.x);
            out.append("\" y=\"");
            write_decimal(out, at.y);
            out.append("\" font-size=\"");
            write_decimal(out, *height);
            out.append("\" fill=\"");
            write_color(out, *color);
            out.append("\">");
            write_escaped(out, text.as_str());
            out.append("</text>\n");
        },
    }
}

/// Writes a document as SVG text: self-contained, of `size` by `size`, its
/// shapes in their order.
pub fn to_svg(document: &Document) -> (r: String)
    ensures
        r@ == svg_of(document.size, document.shapes@),
{
    let size = document.size as u64;
    let mut out = String::from_str("<svg xmlns=\"http://www.w3.org/2000/svg\" width=\"");
    write_digits(&mut out, size);
    out.append("\" height=\"");
    write_digits(&mut out, size);
    out.append("\" viewBox=\"0 0 ");
    write_digits(&mut out, size);
    out.append(" ");
    write_digits(&mut out, size);
    out.append("\">\n");
    let mut i: usize = 0;
    while i < document.shapes.len()
        invariant
            i <= document.shapes.len(),
            out@ == with_shapes(opening(document.size), document.shapes@, i as nat),
        decreases document.shapes.len() - i,
    {
        write_shape(&mut out, &document.shapes[i]);
        i = i + 1;
    }
    out.append("</svg>\n");
    out
}

} // verus!
