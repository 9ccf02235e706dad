//! A canvas of quantised colours as the text of a plain PPM file.
//!
//! The text is a header of three lines (the magic word, the dimensions, the
//! largest channel value) followed by the channel values of every pixel, row
//! by row. Each row of pixels starts a new line, and a line is broken before
//! a value that would bring it to 70 characters or more.

use crate::canvas::Canvas;
use crate::color::RGB;
use vstd::prelude::*;
use vstd::string::StringExecFns;

verus! {

/// A line is broken before a value that would make it this long.
pub const LINE_LIMIT: usize = 70;

/// The character for the decimal digit `d`.
pub open spec fn digit(d: nat) -> char {
    if d == 0 {
        '0'
    } else if d == 1 {
        '1'
    } else if d == 2 {
        '2'
    } else if d == 3 {
        '3'
    } else if d == 4 {
        '4'
    } else if d == 5 {
        '5'
    } else if d == 6 {
        '6'
    } else if d == 7 {
        '7'
    } else if d == 8 {
        '8'
    } else {
        '9'
    }
}

/// `n` in decimal, without leading zeros.
pub open spec fn decimal(n: nat) -> Seq<char>
    decreases n,
{
    if n < 10 {
        seq![digit(n)]
    } else {
        decimal(n / 10).push(digit(n % 10))
    }
}

/// The text written so far, and the length of its last line.
pub type Written = (Seq<char>, nat);

/// Writes one channel value behind `written`: on a new line if the current
/// one would reach the limit, else directly if it opens a row of pixels,
/// else behind a space.
pub open spec fn write_value(written: Written, value: u8, opens_row: bool) -> Written {
    let text = decimal(value as nat);
    if written.1 + text.len() >= LINE_LIMIT {
        (written.0.push('\n') + text, text.len())
    } else if opens_row {
        (written.0 + text, written.1 + text.len())
    } else {
        (written.0.push(' ') + text, written.1 + 1 + text.len())
    }
}

/// Writes the three channels of the pixel in column `x` of a row of `width`
/// pixels, and ends the line behind the last pixel of the row.
pub open spec fn write_pixel(written: Written, pixel: RGB, x: nat, width: nat) -> Written {
    let red = write_value(written, pixel.red, x == 0);
    let green = write_value(red, pixel.green, false);
    let blue = write_value(green, pixel.blue, false);
    if x + 1 == width {
        (blue.0.push('\n'), 0)
    } else {
        blue
    }
}

/// The pixel data for the first `n` pixels of a canvas `width` pixels wide.
pub open spec fn ppm_body(pixels: Seq<RGB>, width: nat, n: nat) -> Written
    decreases n,
{
    if n == 0 || width == 0 {
        (Seq::empty(), 0)
    } else {
        write_pixel(
            ppm_body(pixels, width, (n - 1) as nat),
            pixels[n - 1],
            ((n - 1) % (width as int)) as nat,
            width,
        )
    }
}

/// The three header lines for a canvas of `width` by `height` pixels.
pub open spec fn ppm_header(width: nat, height: nat) -> Seq<char> {
    seq!['P', '3', '\n'] + decimal(width) + seq![' '] + decimal(height) + seq![
        '\n',
        '2',
        '5',
        '5',
        '\n',
    ]
}

/// The whole file for a canvas of `width` by `height` pixels.
pub open spec fn ppm_text(pixels: Seq<RGB>, width: nat, height: nat) -> Seq<char> {
    ppm_header(width, height) + ppm_body(pixels, width, width * height).0
}

/// No value of a channel takes more than three characters.
pub proof fn lemma_decimal_of_byte(value: u8)
    ensures
        decimal(value as nat).len() == if value < 10 {
            1nat
        } else if value < 100 {
            2nat
        } else {
            3nat
        },
{
    reveal_with_fuel(decimal, 3);
}

/// The number of characters behind the last line break of `text`.
pub open spec fn open_line(text: Seq<char>) -> nat
    decreases text.len(),
{
    if text.len() == 0 || text.last() == '\n' {
        0
    } else {
        open_line(text.drop_last()) + 1
    }
}

/// The length of the longest line of `text`, line breaks not counted.
pub open spec fn longest_line(text: Seq<char>) -> nat
    decreases text.len(),
{
    if text.len() == 0 {
        0
    } else {
        let before = longest_line(text.drop_last());
        if open_line(text) > before {
            open_line(text)
        } else {
            before
        }
    }
}

/// The larger of two lengths.
pub open spec fn longer(a: nat, b: nat) -> nat {
    if a > b {
        a
    } else {
        b
    }
}

/// Ten to the power of `k`.
pub open spec fn pow10(k: nat) -> nat
    decreases k,
{
    if k == 0 {
        1
    } else {
        10 * pow10((k - 1) as nat)
    }
}

/// A number in decimal is made of digits.
proof fn lemma_decimal_is_plain(n: nat)
    ensures
        forall|i: int| 0 <= i < decimal(n).len() ==> #[trigger] decimal(n)[i] != '\n',
    decreases n,
{
    if n >= 10 {
        lemma_decimal_is_plain(n / 10);
        let before = decimal(n / 10);
        assert forall|i: int| 0 <= i < decimal(n).len() implies #[trigger] decimal(n)[i]
            != '\n' by {
            if i < before.len() {
                assert(decimal(n)[i] == before[i]);
            }
        }
    }
}

/// A number below ten to the `k` has at most `k` digits.
proof fn lemma_decimal_len(n: nat, k: nat)
    requires
        k >= 1,
        n < pow10(k),
    ensures
        1 <= decimal(n).len() <= k,
    decreases k,
{
    if n >= 10 {
        if k == 1 {
            reveal_with_fuel(pow10, 2);
        } else {
            lemma_decimal_len(n / 10, (k - 1) as nat);
        }
    }
}

/// Text without a line break makes the last line longer and leaves the
/// lines before it as they are.
proof fn lemma_append_plain(text: Seq<char>, more: Seq<char>)
    requires
        forall|i: int| 0 <= i < more.len() ==> #[trigger] more[i] != '\n',
    ensures
        open_line(text + more) == open_line(text) + more.len(),
        longest_line(text + more) == longer(longest_line(text), open_line(text) + more.len()),
    decreases more.len(),
{
    if more.len() == 0 {
        assert(text + more =~= text);
        lemma_longest_covers_open(text);
    } else {
        let all = text + more;
        assert(all.drop_last() =~= text + more.drop_last());
        assert(all.last() == more[more.len() - 1]);
        lemma_append_plain(text, more.drop_last());
    }
}

/// The last line is one of the lines.
proof fn lemma_longest_covers_open(text: Seq<char>)
    ensures
        open_line(text) <= longest_line(text),
{
}

/// A line break ends the last line and leaves every line as it is.
proof fn lemma_push_break(text: Seq<char>)
    ensures
        open_line(text.push('\n')) == 0,
        longest_line(text.push('\n')) == longest_line(text),
{
    assert(text.push('\n').drop_last() =~= text);
}

/// Behind a line break, the lines of what follows are lines of the whole.
proof fn lemma_append_lines(head: Seq<char>, tail: Seq<char>)
    requires
        open_line(head) == 0,
    ensures
        open_line(head + tail) == open_line(tail),
        longest_line(head + tail) == longer(longest_line(head), longest_line(tail)),
    decreases tail.len(),
{
    if tail.len() == 0 {
        assert(head + tail =~= head);
    } else {
        let all = head + tail;
        assert(all.drop_last() =~= head + tail.drop_last());
        assert(all.last() == tail.last());
        lemma_append_lines(head, tail.drop_last());
    }
}

/// Writing a value keeps every line within the limit.
proof fn lemma_write_value_fits(written: Written, value: u8, opens_row: bool)
    requires
        open_line(written.0) == written.1,
        longest_line(written.0) <= LINE_LIMIT,
    ensures
        open_line(write_value(written, value, opens_row).0) == write_value(
            written,
            value,
            opens_row,
        ).1,
        longest_line(write_value(written, value, opens_row).0) <= LINE_LIMIT,
{
    let text = decimal(value as nat);
    lemma_decimal_of_byte(value);
    lemma_decimal_is_plain(value as nat);
    lemma_longest_covers_open(written.0);
    if written.1 + text.len() >= LINE_LIMIT {
        lemma_push_break(written.0);
        lemma_append_plain(written.0.push('\n'), text);
    } else if opens_row {
        lemma_append_plain(written.0, text);
    } else {
        let spaced = seq![' '] + text;
        assert(written.0.push(' ') + text =~= written.0 + spaced);
        lemma_append_plain(written.0, spaced);
    }
}

/// Writing a pixel keeps every line within the limit.
proof fn lemma_write_pixel_fits(written: Written, pixel: RGB, x: nat, width: nat)
    requires
        open_line(written.0) == written.1,
        longest_line(written.0) <= LINE_LIMIT,
    ensures
        open_line(write_pixel(written, pixel, x, width).0) == write_pixel(
            written,
            pixel,
            x,
            width,
        ).1,
        longest_line(write_pixel(written, pixel, x, width).0) <= LINE_LIMIT,
{
    let red = write_value(written, pixel.red, x == 0);
    let green = write_value(red, pixel.green, false);
    let blue = write_value(green, pixel.blue, false);
    lemma_write_value_fits(written, pixel.red, x == 0);
    lemma_write_value_fits(red, pixel.green, false);
    lemma_write_value_fits(green, pixel.blue, false);
    lemma_push_break(blue.0);
}

/// No line of the pixel data is longer than 70 characters, and the length
/// that is kept of the last line is its length.
pub proof fn lemma_body_lines_fit(pixels: Seq<RGB>, width: nat, n: nat)
    ensures
        open_line(ppm_body(pixels, width, n).0) == ppm_body(pixels, width, n).1,
        longest_line(ppm_body(pixels, width, n).0) <= LINE_LIMIT,
    decreases n,
{
    if n != 0 && width != 0 {
        lemma_body_lines_fit(pixels, width, (n - 1) as nat);
        lemma_write_pixel_fits(
            ppm_body(pixels, width, (n - 1) as nat),
            pixels[n - 1],
            ((n - 1) % (width as int)) as nat,
            width,
        );
    }
}

/// A size has at most twenty digits.
proof fn lemma_size_len(n: usize)
    ensures
        1 <= decimal(n as nat).len() <= 20,
{
    assert(usize::MAX < pow10(20)) by {
        reveal_with_fuel(pow10, 21);
    }
    lemma_decimal_len(n as nat, 20);
}

/// The magic word is a line of its own.
proof fn lemma_magic_line()
    ensures
        open_line(seq!['P', '3', '\n']) == 0,
        longest_line(seq!['P', '3', '\n']) == 2,
{
    let p = seq!['P'];
    let word = seq!['P', '3'];
    let magic = seq!['P', '3', '\n'];
    assert(p.drop_last() =~= Seq::<char>::empty());
    assert(word.drop_last() =~= p);
    assert(magic.drop_last() =~= word);
    assert(open_line(p) == 1 && longest_line(p) == 1) by {
        reveal_with_fuel(open_line, 2);
        reveal_with_fuel(longest_line, 2);
    }
    assert(open_line(word) == 2 && longest_line(word) == 2);
}

/// The header is three lines, none longer than 41 characters.
proof fn lemma_header_lines_fit(width: usize, height: usize)
    ensures
        open_line(ppm_header(width as nat, height as nat)) == 0,
        longest_line(ppm_header(width as nat, height as nat)) <= 41,
{
    let w = decimal(width as nat);
    let h = decimal(height as nat);
    lemma_size_len(width);
    lemma_size_len(height);
    lemma_decimal_is_plain(width as nat);
    lemma_decimal_is_plain(height as nat);
    let magic = seq!['P', '3', '\n'];
    let sizes = w + seq![' '] + h;
    let depth = seq!['2', '5', '5'];
    lemma_magic_line();
    lemma_append_plain(magic, sizes);
    lemma_push_break(magic + sizes);
    lemma_append_plain((magic + sizes).push('\n'), depth);
    lemma_push_break((magic + sizes).push('\n') + depth);
    let header = ((magic + sizes).push('\n') + depth).push('\n');
    assert(header =~= ppm_header(width as nat, height as nat));
}

/// No line of a PPM file is longer than 70 characters.
pub proof fn lemma_lines_fit(pixels: Seq<RGB>, width: usize, height: usize)
    ensures
        longest_line(ppm_text(pixels, width as nat, height as nat)) <= LINE_LIMIT,
{
    let header = ppm_header(width as nat, height as nat);
    let body = ppm_body(pixels, width as nat, (width * height) as nat).0;
    lemma_header_lines_fit(width, height);
    lemma_body_lines_fit(pixels, width as nat, (width * height) as nat);
    lemma_append_lines(header, body);
}

/// One decimal digit as text.
fn digit_text(d: usize) -> (text: &'static str)
    requires
        d < 10,
    ensures
        text@ == seq![digit(d as nat)],
{
    proof {
        reveal_strlit("0");
        reveal_strlit("1");
        reveal_strlit("2");
        reveal_strlit("3");
        reveal_strlit("4");
        reveal_strlit("5");
        reveal_strlit("6");
        reveal_strlit("7");
        reveal_strlit("8");
        reveal_strlit("9");
    }
    let text = if d == 0 {
        "0"
    } else if d == 1 {
        "1"
    } else if d == 2 {
        "2"
    } else if d == 3 {
        "3"
    } else if d == 4 {
        "4"
    } else if d == 5 {
        "5"
    } else if d == 6 {
        "6"
    } else if d == 7 {
        "7"
    } else if d == 8 {
        "8"
    } else {
        "9"
    };
    assert(text@ =~= seq![digit(d as nat)]);
    text
}

/// Appends `n` in decimal to `text`.
fn append_decimal(text: &mut String, n: usize)
    ensures
        final(text)@ == old(text)@ + decimal(n as nat),
    decreases n,
{
    if n >= 10 {
        append_decimal(text, n / 10);
    }
    text.append(digit_text(n % 10));
    assert(final(text)@ =~= old(text)@ + decimal(n as nat));
}

/// Appends one channel value to `text`, whose last line has `line_len`
/// characters, and returns the new length of the last line.
fn append_value(text: &mut String, line_len: usize, value: u8, opens_row: bool) -> (new_len: usize)
    requires
        line_len <= LINE_LIMIT,
    ensures
        (final(text)@, new_len as nat) == write_value(
            (old(text)@, line_len as nat),
            value,
            opens_row,
        ),
        new_len <= LINE_LIMIT,
{
    proof {
        lemma_decimal_of_byte(value);
        reveal_strlit("\n");
        reveal_strlit(" ");
    }
    let width: usize = if value < 10 {
        1
    } else if value < 100 {
        2
    } else {
        3
    };
    let ghost before = text@;
    let ghost digits = decimal(value as nat);
    if line_len + width >= LINE_LIMIT {
        text.append("\n");
        append_decimal(text, value as usize);
        assert(text@ =~= before.push('\n') + digits);
        width
    } else if opens_row {
        append_decimal(text, value as usize);
        line_len + width
    } else {
        text.append(" ");
        append_decimal(text, value as usize);
        assert(text@ =~= before.push(' ') + digits);
        line_len + 1 + width
    }
}

/// Appends the pixel in column `x` of a row of `width` pixels to `text`,
/// whose last line has `line_len` characters, and returns the new length of
/// the last line.
fn append_pixel(text: &mut String, line_len: usize, pixel: RGB, x: usize, width: usize) -> (new_len:
    usize)
    requires
        line_len <= LINE_LIMIT,
        x < width,
    ensures
        (final(text)@, new_len as nat) == write_pixel(
            (old(text)@, line_len as nat),
            pixel,
            x as nat,
            width as nat,
        ),
        new_len <= LINE_LIMIT,
{
    let red = append_value(text, line_len, pixel.red, x == 0);
    let green = append_value(text, red, pixel.green, false);
    let blue = append_value(text, green, pixel.blue, false);
    if x == width - 1 {
        proof {
            reveal_strlit("\n");
        }
        let ghost before = text@;
        text.append("\n");
        assert(text@ =~= before.push('\n'));
        0
    } else {
        blue
    }
}

/// What is written does not depend on the text before the current line.
proof fn lemma_write_value_behind(prefix: Seq<char>, written: Written, value: u8, opens_row: bool)
    ensures
        write_value((prefix + written.0, written.1), value, opens_row) == (
            prefix + write_value(written, value, opens_row).0,
            write_value(written, value, opens_row).1,
        ),
{
    let text = decimal(value as nat);
    assert((prefix + written.0).push('\n') + text =~= prefix + (written.0.push('\n') + text));
    assert((prefix + written.0) + text =~= prefix + (written.0 + text));
    assert((prefix + written.0).push(' ') + text =~= prefix + (written.0.push(' ') + text));
}

/// What is written does not depend on the text before the current line.
proof fn lemma_write_pixel_behind(
    prefix: Seq<char>,
    written: Written,
    pixel: RGB,
    x: nat,
    width: nat,
)
    ensures
        write_pixel((prefix + written.0, written.1), pixel, x, width) == (
            prefix + write_pixel(written, pixel, x, width).0,
            write_pixel(written, pixel, x, width).1,
        ),
{
    let red = write_value(written, pixel.red, x == 0);
    let green = write_value(red, pixel.green, false);
    let blue = write_value(green, pixel.blue, false);
    lemma_write_value_behind(prefix, written, pixel.red, x == 0);
    lemma_write_value_behind(prefix, red, pixel.green, false);
    lemma_write_value_behind(prefix, green, pixel.blue, false);
    assert((prefix + blue.0).push('\n') =~= prefix + blue.0.push('\n'));
}

/// The pixel data grows by one pixel at a time, in storage order.
proof fn lemma_body_step(pixels: Seq<RGB>, width: usize, height: usize, x: usize, y: usize)
    requires
        x < width,
        y < height,
    ensures
        ppm_body(pixels, width as nat, (y * width + x + 1) as nat) == write_pixel(
            ppm_body(pixels, width as nat, (y * width + x) as nat),
            pixels[y * width + x],
            x as nat,
            width as nat,
        ),
{
    crate::canvas::lemma_pixel_index_in_grid(width, height, x, y);
}

impl Canvas<RGB> {
    /// The canvas as the text of a plain PPM file.
    pub fn to_ppm(&self) -> (ppm: String)
        requires
            self.wf(),
        ensures
            ppm@ == ppm_text(self@, self.width() as nat, self.height() as nat),
            longest_line(ppm@) <= LINE_LIMIT,
    {
        proof {
            lemma_lines_fit(self@, self.width(), self.height());
        }
        let width = self.width();
        let height = self.height();
        let mut text = String::new();
        text.append("P3\n");
        append_decimal(&mut text, width);
        text.append(" ");
        append_decimal(&mut text, height);
        text.append("\n255\n");
        let ghost header = text@;
        proof {
            reveal_strlit("P3\n");
            reveal_strlit(" ");
            reveal_strlit("\n255\n");
            assert(header =~= ppm_header(width as nat, height as nat));
        }
        let mut line_len: usize = 0;
        let mut y: usize = 0;
        while y < height
            invariant
                self.wf(),
                width == self.width(),
                height == self.height(),
                y <= height,
                line_len <= LINE_LIMIT,
                text@ == header + ppm_body(self@, width as nat, (y * width) as nat).0,
                line_len == ppm_body(self@, width as nat, (y * width) as nat).1,
            decreases height - y,
        {
            let mut x: usize = 0;
            while x < width
                invariant
                    self.wf(),
                    width == self.width(),
                    height == self.height(),
                    y < height,
                    x <= width,
                    line_len <= LINE_LIMIT,
                    text@ == header + ppm_body(self@, width as nat, (y * width + x) as nat).0,
                    line_len == ppm_body(self@, width as nat, (y * width + x) as nat).1,
                decreases width - x,
            {
                let ghost before = ppm_body(self@, width as nat, (y * width + x) as nat);
                proof {
                    crate::canvas::lemma_pixel_index_in_grid(width, height, x, y);
                    lemma_body_step(self@, width, height, x, y);
                    lemma_write_pixel_behind(
                        header,
                        before,
                        self@[y * width + x],
                        x as nat,
                        width as nat,
                    );
                }
                let pixel = *self.get(x, y);
                line_len = append_pixel(&mut text, line_len, pixel, x, width);
                x += 1;
            }
            proof {
                assert(y * width + width == (y + 1) * width) by (nonlinear_arith);
            }
            y += 1;
        }
        proof {
            assert(y * width == width * height) by (nonlinear_arith)
                requires
                    y == height,
            ;
        }
        text
    }
}

} // verus!
