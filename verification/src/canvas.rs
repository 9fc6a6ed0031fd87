//! A canvas: a rectangle of colors, held row by row.
use vstd::prelude::*;
use crate::colors::{spec_to_byte, Color};

verus! {

/// A rectangle of colors, black when made.
pub struct Canvas {
    width: usize,
    height: usize,
    pixels: Vec<Color>,
}

impl Canvas {
    /// The canvas holds one color for each place of the rectangle.
    #[verifier::type_invariant]
    spec fn inv(&self) -> bool {
        self.pixels@.len() == self.width * self.height
    }

    /// The number of columns.
    pub closed spec fn spec_width(&self) -> usize {
        self.width
    }

    /// The number of rows.
    pub closed spec fn spec_height(&self) -> usize {
        self.height
    }

    /// The colors, row by row from the top, each row from the left.
    pub closed spec fn pixels(&self) -> Seq<Color> {
        self.pixels@
    }

    /// The place in `pixels` of the color in column `x` and row `y`.
    pub open spec fn offset(&self, x: usize, y: usize) -> int {
        x + y * self.spec_width()
    }

    /// Whether column `x` and row `y` name a place on the canvas. A column
    /// beyond the last runs on into the rows below.
    pub open spec fn holds(&self, x: usize, y: usize) -> bool {
        self.offset(x, y) < self.spec_width() * self.spec_height()
    }

    /// The black canvas of the given size.
    pub fn new(width: usize, height: usize) -> (c: Self)
        requires
            width * height <= usize::MAX,
        ensures
            c.spec_width() == width,
            c.spec_height() == height,
            c.pixels().len() == width * height,
            forall|i: int| 0 <= i < c.pixels().len() ==> (#[trigger] c.pixels()[i]).is_black(),
    {
        let n: usize = width * height;
        let mut pixels: Vec<Color> = Vec::with_capacity(n);
        let mut i: usize = 0;
        while i < n
            invariant
                i <= n,
                pixels@.len() == i,
                forall|k: int| 0 <= k < i ==> (#[trigger] pixels@[k]).is_black(),
            decreases n - i,
        {
            pixels.push(Color::default());
            i += 1;
        }
        Canvas { width, height, pixels }
    }

    /// The number of columns.
    #[verifier::when_used_as_spec(spec_width)]
    pub fn width(&self) -> (w: usize)
        ensures
            w == self.spec_width(),
    {
        self.width
    }

    /// The number of rows.
    #[verifier::when_used_as_spec(spec_height)]
    pub fn height(&self) -> (h: usize)
        ensures
            h == self.spec_height(),
    {
        self.height
    }

    /// The color in column `x` and row `y`.
    pub fn get(&self, x: usize, y: usize) -> (c: Color)
        requires
            self.holds(x, y),
        ensures
            c == self.pixels()[self.offset(x, y)],
            self.pixels().len() == self.spec_width() * self.spec_height(),
    {
        let n: usize = self.pixels.len();
        proof {
            use_type_invariant(self);
            lemma_row_start(y as int, self.width as int, self.height as int, x as int);
        }
        self.pixels[x + y * self.width]
    }

    /// Puts the color `c` in column `x` and row `y`.
    pub fn set(&mut self, x: usize, y: usize, c: Color)
        requires
            old(self).holds(x, y),
        ensures
            final(self).spec_width() == old(self).spec_width(),
            final(self).spec_height() == old(self).spec_height(),
            final(self).pixels() == old(self).pixels().update(old(self).offset(x, y), c),
    {
        let n: usize = self.pixels.len();
        proof {
            use_type_invariant(&*self);
            lemma_row_start(y as int, self.width as int, self.height as int, x as int);
        }
        let i: usize = x + y * self.width;
        let mut cell: Color = c;
        core::mem::swap(&mut self.pixels[i], &mut cell);
    }
}

/// A place below the end of the canvas lies at a row whose start can be
/// reckoned without overflow.
proof fn lemma_row_start(y: int, w: int, h: int, x: int)
    requires
        0 <= x,
        0 <= y,
        0 <= w,
        0 <= h,
        x + y * w < w * h,
    ensures
        0 <= y * w <= x + y * w,
{
    assert(0 <= y * w) by (nonlinear_arith)
        requires
            0 <= y,
            0 <= w,
    ;
}

/// The byte of a line break.
pub const NEWLINE: u8 = 10;

/// The byte of a blank.
pub const BLANK: u8 = 32;

/// The longest line that a picture's text is meant to have.
pub const LINE_LIMIT: usize = 70;

/// The decimal numeral of `n`, in characters.
pub open spec fn decimal(n: nat) -> Seq<u8>
    decreases n,
{
    if n < 10 {
        seq![(48 + n) as u8]
    } else {
        decimal(n / 10).push((48 + n % 10) as u8)
    }
}

/// The length at which a sample is reckoned when a line is filled: one
/// character below 10, two up to 100, three above.
pub open spec fn reckoned(v: u8) -> int {
    if v <= 9 {
        1
    } else if v <= 100 {
        2
    } else {
        3
    }
}

/// The text of the samples `vals` of one row, on a line that is reckoned to
/// hold `linelen` characters so far and that is empty if `first`. A sample
/// follows the one before it after a blank, or after a line break where the
/// line would else be reckoned longer than the limit; the sample that opens
/// a line after a break is not reckoned. A line break ends the row.
pub open spec fn row_text(vals: Seq<u8>, linelen: int, first: bool) -> Seq<u8>
    decreases vals.len(),
{
    if vals.len() == 0 {
        seq![NEWLINE]
    } else {
        let sep: int = if first {
            0
        } else {
            1
        };
        let reach = linelen + sep + reckoned(vals[0]);
        if reach > LINE_LIMIT {
            seq![NEWLINE] + decimal(vals[0] as nat) + row_text(vals.skip(1), 0, false)
        } else if first {
            decimal(vals[0] as nat) + row_text(vals.skip(1), reach, false)
        } else {
            seq![BLANK] + decimal(vals[0] as nat) + row_text(vals.skip(1), reach, false)
        }
    }
}

/// The samples `vals` as numerals with a blank between every two.
pub open spec fn spaced(vals: Seq<u8>, first: bool) -> Seq<u8>
    decreases vals.len(),
{
    if vals.len() == 0 {
        Seq::<u8>::empty()
    } else if first {
        decimal(vals[0] as nat) + spaced(vals.skip(1), false)
    } else {
        seq![BLANK] + decimal(vals[0] as nat) + spaced(vals.skip(1), false)
    }
}

/// `text` with a blank in place of every line break.
pub open spec fn unbroken(text: Seq<u8>) -> Seq<u8> {
    text.map_values(
        |b: u8|
            if b == NEWLINE {
                BLANK
            } else {
                b
            },
    )
}

/// The head of a picture's text: the mark of a plain pixmap, the width and
/// the height, and the largest sample.
pub open spec fn header(width: usize, height: usize) -> Seq<u8> {
    seq![80u8, 51u8, NEWLINE] + decimal(width as nat) + seq![BLANK] + decimal(height as nat) + seq![
        NEWLINE,
        50u8,
        53u8,
        53u8,
        NEWLINE,
    ]
}

impl Canvas {
    /// The samples of row `y`: for each color of the row its red, green and
    /// blue byte.
    pub open spec fn row_samples(&self, y: int) -> Seq<u8> {
        Seq::new(
            (3 * self.spec_width()) as nat,
            |k: int| spec_to_byte(self.pixels()[y * self.spec_width() + k / 3].channel(k % 3)) as u8,
        )
    }

    /// The text of the rows from row `y` on.
    pub open spec fn rows_text(&self, y: int) -> Seq<u8>
        decreases self.spec_height() - y,
    {
        if y >= self.spec_height() {
            Seq::<u8>::empty()
        } else {
            row_text(self.row_samples(y), 0, true) + self.rows_text(y + 1)
        }
    }

    /// The picture as the text of a plain pixmap.
    pub open spec fn ppm_text(&self) -> Seq<u8> {
        header(self.spec_width(), self.spec_height()) + self.rows_text(0)
    }

    /// The picture as the text of a plain pixmap: the head, then each row
    /// of the canvas as the numerals of its samples.
    pub fn write_ppm(&self) -> (out: Vec<u8>)
        ensures
            out@ == self.ppm_text(),
    {
        proof {
            use_type_invariant(self);
        }
        let mut out: Vec<u8> = Vec::new();
        out.push(80u8);
        out.push(51u8);
        out.push(NEWLINE);
        push_decimal(&mut out, self.width);
        out.push(BLANK);
        push_decimal(&mut out, self.height);
        out.push(NEWLINE);
        out.push(50u8);
        out.push(53u8);
        out.push(53u8);
        out.push(NEWLINE);
        assert(out@ =~= header(self.spec_width(), self.spec_height()));
        let n: usize = self.pixels.len();
        let mut y: usize = 0;
        while y < self.height
            invariant
                y <= self.height,
                n == self.pixels@.len(),
                n == self.width * self.height,
                out@ + self.rows_text(y as int) == self.ppm_text(),
            decreases self.height - y,
        {
            let ghost row = self.row_samples(y as int);
            let ghost rest = self.rows_text(y + 1);
            let ghost whole = self.ppm_text();
            let mut linelen: usize = 0;
            let mut first: bool = true;
            let mut x: usize = 0;
            proof {
                assert(row.skip(0) =~= row);
                assert(out@ + (row_text(row, 0, true) + rest) =~= out@ + row_text(row, 0, true)
                    + rest);
                lemma_row_in_canvas(y as int, self.width as int, self.height as int);
            }
            while x < self.width
                invariant
                    x <= self.width,
                    y < self.height,
                    n == self.pixels@.len(),
                    n == self.width * self.height,
                    (y + 1) * self.width <= n,
                    0 <= y * self.width,
                    row == self.row_samples(y as int),
                    linelen <= LINE_LIMIT,
                    first == (x == 0),
                    out@ + row_text(row.skip(3 * x), linelen as int, first) + rest == whole,
                decreases self.width - x,
            {
                proof {
                    assert(y * self.width + x < (y + 1) * self.width) by (nonlinear_arith)
                        requires
                            x < self.width,
                    ;
                }
                let p: Color = self.pixels[y * self.width + x];
                let bytes: [u8; 3] = p.to_bytes();
                let mut c: usize = 0;
                while c < 3
                    invariant
                        c <= 3,
                        x < self.width,
                        row.len() == 3 * self.width,
                        forall|j: int|
                            0 <= j < 3 ==> bytes@[j] == #[trigger] row[3 * x + j],
                        linelen <= LINE_LIMIT,
                        first == (x == 0 && c == 0),
                        out@ + row_text(row.skip(3 * x + c), linelen as int, first) + rest
                            == whole,
                    decreases 3 - c,
                {
                    let v: u8 = bytes[c];
                    let ghost before = out@;
                    let ghost tail = row.skip(3 * x + c);
                    let ghost next = row.skip(3 * x + c + 1);
                    proof {
                        assert(tail.len() > 0);
                        assert(tail[0] == v);
                        assert(tail.skip(1) =~= next);
                    }
                    let vlen: usize = if v <= 9 {
                        1
                    } else if v <= 100 {
                        2
                    } else {
                        3
                    };
                    let sep: usize = if first {
                        0
                    } else {
                        1
                    };
                    if linelen + sep + vlen > LINE_LIMIT {
                        out.push(NEWLINE);
                        push_decimal(&mut out, v as usize);
                        linelen = 0;
                        proof {
                            assert(out@ =~= before + (seq![NEWLINE] + decimal(v as nat)));
                            assert(before + (seq![NEWLINE] + decimal(v as nat) + row_text(
                                next,
                                0,
                                false,
                            )) + rest =~= out@ + row_text(next, 0, false) + rest);
                        }
                    } else {
                        if !first {
                            out.push(BLANK);
                        }
                        push_decimal(&mut out, v as usize);
                        linelen = linelen + sep + vlen;
                        proof {
                            if first {
                                assert(out@ =~= before + decimal(v as nat));
                                assert(before + (decimal(v as nat) + row_text(
                                    next,
                                    linelen as int,
                                    false,
                                )) + rest =~= out@ + row_text(next, linelen as int, false)
                                    + rest);
                            } else {
                                assert(out@ =~= before + (seq![BLANK] + decimal(v as nat)));
                                assert(before + (seq![BLANK] + decimal(v as nat) + row_text(
                                    next,
                                    linelen as int,
                                    false,
                                )) + rest =~= out@ + row_text(next, linelen as int, false)
                                    + rest);
                            }
                        }
                    }
                    first = false;
                    c += 1;
                }
                x += 1;
            }
            proof {
                assert(row.skip(3 * self.width).len() == 0);
                assert(out@ + seq![NEWLINE] + rest =~= out@.push(NEWLINE) + rest);
            }
            out.push(NEWLINE);
            y += 1;
        }
        proof {
            assert(out@ + Seq::<u8>::empty() =~= out@);
        }
        out
    }
}

/// Appends the decimal numeral of `n`.
fn push_decimal(out: &mut Vec<u8>, n: usize)
    ensures
        final(out)@ == old(out)@ + decimal(n as nat),
    decreases n,
{
    if n >= 10 {
        push_decimal(out, n / 10);
    }
    let ghost before = out@;
    out.push(48u8 + (n % 10) as u8);
    proof {
        if n >= 10 {
            assert(before.push((48 + n % 10) as u8) =~= old(out)@ + decimal(n as nat));
        } else {
            assert(before.push((48 + n % 10) as u8) =~= old(out)@ + decimal(n as nat));
        }
    }
}

proof fn lemma_row_in_canvas(y: int, w: int, h: int)
    requires
        0 <= y < h,
        0 <= w,
    ensures
        0 <= y * w,
        (y + 1) * w <= w * h,
{
    assert(0 <= y * w) by (nonlinear_arith)
        requires
            0 <= y,
            0 <= w,
    ;
    assert((y + 1) * w <= w * h) by (nonlinear_arith)
        requires
            y + 1 <= h,
            0 <= w,
    ;
}

/// The number that a numeral stands for.
pub open spec fn numeral_value(digits: Seq<u8>) -> nat
    decreases digits.len(),
{
    if digits.len() == 0 {
        0
    } else {
        (numeral_value(digits.drop_last()) * 10 + (digits.last() - 48)) as nat
    }
}

/// A numeral holds one digit at least and digits only, and stands for the
/// number that it was made from.
pub proof fn lemma_decimal_reads_back(n: nat)
    ensures
        decimal(n).len() >= 1,
        forall|i: int| 0 <= i < decimal(n).len() ==> 48 <= #[trigger] decimal(n)[i] <= 57,
        numeral_value(decimal(n)) == n,
    decreases n,
{
    if n >= 10 {
        lemma_decimal_reads_back(n / 10);
        let front = decimal(n / 10);
        let d = (48 + n % 10) as u8;
        assert(front.push(d).drop_last() =~= front);
        assert(decimal(n).last() == d);
        assert(numeral_value(decimal(n)) == numeral_value(front) * 10 + (d - 48));
        assert forall|i: int| 0 <= i < decimal(n).len() implies 48 <= #[trigger] decimal(n)[i]
            <= 57 by {
            if i < front.len() {
                assert(decimal(n)[i] == front[i]);
            }
        }
    } else {
        assert(decimal(n).drop_last() =~= Seq::<u8>::empty());
        assert(numeral_value(decimal(n).drop_last()) == 0);
        assert(decimal(n).last() == 48 + n);
    }
}

proof fn lemma_unbroken_parts(a: Seq<u8>, b: Seq<u8>)
    ensures
        unbroken(a + b) == unbroken(a) + unbroken(b),
{
    assert(unbroken(a + b) =~= unbroken(a) + unbroken(b));
}

proof fn lemma_unbroken_numeral(n: nat)
    ensures
        unbroken(decimal(n)) == decimal(n),
{
    lemma_decimal_reads_back(n);
    assert(unbroken(decimal(n)) =~= decimal(n));
}

/// The text of a row holds the numerals of its samples in their order, one
/// separator between every two and a line break at the end: only which
/// separators are line breaks depends on the filling of the lines.
pub proof fn lemma_row_text_holds_samples(vals: Seq<u8>, linelen: int, first: bool)
    requires
        first ==> linelen == 0,
    ensures
        unbroken(row_text(vals, linelen, first)) == spaced(vals, first).push(BLANK),
    decreases vals.len(),
{
    if vals.len() == 0 {
        assert(unbroken(seq![NEWLINE]) =~= Seq::<u8>::empty().push(BLANK));
    } else {
        let v = vals[0] as nat;
        let rest = vals.skip(1);
        let sep: int = if first {
            0
        } else {
            1
        };
        let reach = linelen + sep + reckoned(vals[0]);
        lemma_unbroken_numeral(v);
        assert(unbroken(seq![NEWLINE]) =~= seq![BLANK]);
        assert(unbroken(seq![BLANK]) =~= seq![BLANK]);
        if reach > LINE_LIMIT {
            lemma_row_text_holds_samples(rest, 0, false);
            lemma_unbroken_parts(seq![NEWLINE] + decimal(v), row_text(rest, 0, false));
            lemma_unbroken_parts(seq![NEWLINE], decimal(v));
            assert(seq![BLANK] + decimal(v) + spaced(rest, false).push(BLANK) =~= (seq![BLANK]
                + decimal(v) + spaced(rest, false)).push(BLANK));
        } else if first {
            lemma_row_text_holds_samples(rest, reach, false);
            lemma_unbroken_parts(decimal(v), row_text(rest, reach, false));
            assert(decimal(v) + spaced(rest, false).push(BLANK) =~= (decimal(v) + spaced(
                rest,
                false,
            )).push(BLANK));
        } else {
            lemma_row_text_holds_samples(rest, reach, false);
            lemma_unbroken_parts(seq![BLANK] + decimal(v), row_text(rest, reach, false));
            lemma_unbroken_parts(seq![BLANK], decimal(v));
            assert(seq![BLANK] + decimal(v) + spaced(rest, false).push(BLANK) =~= (seq![BLANK]
                + decimal(v) + spaced(rest, false)).push(BLANK));
        }
    }
}

} // verus!
