//! Text rows: greedy packing of shaped glyphs, truncation with a suffix,
//! and the placement of the rows.
//!
//! Glyph boxes and everything derived from them is counted in whole
//! pixels, as a text shaper reports them.

use vstd::prelude::*;
use crate::color::Rgba;
use crate::compositing::Buffer;
use crate::effects::{shade, shade_spec, DropShadow};
use crate::graphic::{Align, DrawnText, Frame};
use crate::metrics::{
    clamp, clamp_spec, pixels_spec, to_pixels, whole_pixels, whole_pixels_spec, Position, Rect,
    UNITS_PER_PIXEL,
};
use crate::path::{half, half_spec};
use crate::utils::{AppResult, Fault};

verus! {

/// What a text shaper made of a text node: the glyphs of its content that
/// have a box, the truncation suffix as one glyph where the node has a
/// suffix, and the height of the font from ascent to descent, in pixels.
#[derive(Debug)]
pub struct Shaped {
    pub glyphs: Vec<LetterGlyph>,
    pub suffix: Option<LetterGlyph>,
    pub font_height: i32,
}

/// A paragraph of text in one font, size and color.
#[derive(Debug)]
pub struct Text {
    pub content: String,
    pub color: Rgba,
    /// The point size of the font.
    pub size: i32,
    pub font: Option<String>,
    pub line_height: Option<i32>,
    pub position: Option<Position>,
    pub suffix: Option<String>,
    pub max_rows: Option<usize>,
    pub align: Option<Align>,
    pub shadow: Option<DropShadow>,
    /// The shaped content; a text must be shaped before it is drawn.
    pub shaped: Option<Shaped>,
}

/// The pixel box of a shaped glyph.
#[derive(Clone, Copy, Debug, PartialEq, Eq, Structural)]
pub struct GlyphBounds {
    pub min_x: i32,
    pub min_y: i32,
    pub max_x: i32,
    pub max_y: i32,
}

/// One pixel of a glyph: its column and row within the glyph, and how much
/// of it the glyph covers, from 0 to 255.
#[derive(Clone, Copy, Debug, PartialEq, Eq, Structural)]
pub struct LetterPixel(pub u32, pub u32, pub u8);

/// A shaped glyph: its box and its covered pixels.
#[derive(Debug)]
pub struct LetterGlyph {
    pub bounds: GlyphBounds,
    pub pixels: Vec<LetterPixel>,
}

/// A row of text: the glyphs from `start` up to `end`, then the truncation
/// suffix where `suffix` is set; `width` is the sum of their widths.
#[derive(Clone, Copy, Debug, PartialEq, Eq, Structural)]
pub struct Row {
    pub start: usize,
    pub end: usize,
    pub suffix: bool,
    pub width: i64,
}

impl GlyphBounds {
    /// The advance of the glyph in a row; a box whose edges are out of
    /// order has none.
    pub open spec fn spec_width(&self) -> int {
        if self.max_x > self.min_x {
            self.max_x - self.min_x
        } else {
            0
        }
    }

    pub fn width(&self) -> (r: i64)
        ensures
            r as int == self.spec_width(),
            0 <= r <= u32::MAX,
    {
        if self.max_x > self.min_x {
            self.max_x as i64 - self.min_x as i64
        } else {
            0
        }
    }
}

/// The widths of the glyphs, in order.
pub open spec fn widths_of(glyphs: Seq<LetterGlyph>) -> Seq<int> {
    Seq::new(glyphs.len(), |i: int| glyphs[i].bounds.spec_width())
}

/// The width of the suffix, zero where there is none.
pub open spec fn suffix_width(suffix: Option<LetterGlyph>) -> int {
    match suffix {
        Some(s) => s.bounds.spec_width(),
        None => 0,
    }
}

/// The sum of the widths from `start` up to `end`.
pub open spec fn span_width(widths: Seq<int>, start: int, end: int) -> int
    decreases end - start,
{
    if end <= start {
        0
    } else {
        span_width(widths, start, end - 1) + widths[end - 1]
    }
}

/// Where a row that began at `start` ends after trailing glyphs have been
/// taken off, and how wide it then is: while the row, `cur` wide, does not
/// leave room for the suffix, and holds more than one glyph, its last glyph
/// goes.
pub open spec fn trim_spec(
    widths: Seq<int>,
    start: int,
    end: int,
    cur: int,
    suffix_w: int,
    max_width: int,
) -> (int, int)
    decreases end - start,
{
    if cur + suffix_w > max_width && end - start > 1 {
        trim_spec(widths, start, end - 1, cur - widths[end - 1], suffix_w, max_width)
    } else {
        (end, cur)
    }
}

/// The rows that greedy packing gives from glyph `i` on, when `rows` have
/// been laid out and the last of them is `w` wide.
///
/// A glyph joins the last row while the row stays within `max_width`.  The
/// first glyph that does not fit opens a new row, unless `max_rows` is
/// reached: then the last row is trimmed to make room for the suffix,
/// receives the suffix where there is one, and the remaining glyphs are
/// dropped.
pub open spec fn pack_spec(
    widths: Seq<int>,
    has_suffix: bool,
    suffix_w: int,
    max_rows: int,
    max_width: int,
    i: int,
    rows: Seq<Row>,
    w: int,
) -> Seq<Row>
    decreases widths.len() - i,
{
    if i < 0 || i >= widths.len() {
        rows
    } else {
        let rows1 = if rows.len() == 0 {
            seq![Row { start: i as usize, end: i as usize, suffix: false, width: 0 }]
        } else {
            rows
        };
        let last = rows1.last();
        let w1 = w + widths[i];
        if w1 <= max_width {
            pack_spec(
                widths,
                has_suffix,
                suffix_w,
                max_rows,
                max_width,
                i + 1,
                rows1.update(
                    rows1.len() - 1,
                    Row { start: last.start, end: (i + 1) as usize, suffix: false, width: w1 as i64 },
                ),
                w1,
            )
        } else if rows1.len() >= max_rows {
            let (end, cur) = trim_spec(
                widths,
                last.start as int,
                last.end as int,
                w,
                suffix_w,
                max_width,
            );
            rows1.update(
                rows1.len() - 1,
                Row {
                    start: last.start,
                    end: end as usize,
                    suffix: has_suffix,
                    width: (cur + suffix_w) as i64,
                },
            )
        } else {
            pack_spec(
                widths,
                has_suffix,
                suffix_w,
                max_rows,
                max_width,
                i + 1,
                rows1.push(
                    Row {
                        start: i as usize,
                        end: (i + 1) as usize,
                        suffix: false,
                        width: widths[i] as i64,
                    },
                ),
                widths[i],
            )
        }
    }
}

/// The rows of a text: see [`pack_spec`].
pub open spec fn allocate_spec(
    glyphs: Seq<LetterGlyph>,
    suffix: Option<LetterGlyph>,
    max_rows: int,
    max_width: int,
) -> Seq<Row> {
    pack_spec(
        widths_of(glyphs),
        suffix.is_some(),
        suffix_width(suffix),
        max_rows,
        max_width,
        0,
        Seq::empty(),
        0,
    )
}

/// Whether a row holds glyphs that exist and is as wide as they are
/// together, the suffix included.
pub open spec fn row_ok(widths: Seq<int>, suffix_w: int, row: Row) -> bool {
    &&& row.start <= row.end <= widths.len()
    &&& row.width == span_width(widths, row.start as int, row.end as int) + (if row.suffix {
        suffix_w
    } else {
        0
    })
    &&& 0 <= row.width <= 2 * u32::MAX
}

/// Takes trailing glyphs off a row; see [`trim_spec`].
fn trim(
    glyphs: &Vec<LetterGlyph>,
    start: usize,
    end: usize,
    cur: i64,
    suffix_w: i64,
    max_width: i64,
) -> (r: (usize, i64))
    requires
        start <= end <= glyphs@.len(),
        0 <= suffix_w <= u32::MAX,
        i32::MIN <= max_width <= i32::MAX,
        cur == span_width(widths_of(glyphs@), start as int, end as int),
        cur <= u32::MAX,
    ensures
        (r.0 as int, r.1 as int) == trim_spec(
            widths_of(glyphs@),
            start as int,
            end as int,
            cur as int,
            suffix_w as int,
            max_width as int,
        ),
        start <= r.0 <= end,
        r.1 == span_width(widths_of(glyphs@), start as int, r.0 as int),
        0 <= r.1 <= cur,
{
    let mut e: usize = end;
    let mut c: i64 = cur;
    let ghost widths = widths_of(glyphs@);
    proof {
        lemma_span_nonneg(widths, start as int, end as int);
    }
    while c + suffix_w > max_width && e - start > 1
        invariant
            start <= e <= end,
            end <= glyphs@.len(),
            widths == widths_of(glyphs@),
            c == span_width(widths, start as int, e as int),
            0 <= c <= cur,
            cur <= u32::MAX,
            0 <= suffix_w <= u32::MAX,
            trim_spec(widths, start as int, e as int, c as int, suffix_w as int, max_width as int)
                == trim_spec(
                widths,
                start as int,
                end as int,
                cur as int,
                suffix_w as int,
                max_width as int,
            ),
        decreases e - start,
    {
        let lw = glyphs[e - 1].bounds.width();
        proof {
            lemma_span_nonneg(widths, start as int, e as int - 1);
        }
        c = c - lw;
        e = e - 1;
    }
    (e, c)
}

/// Packs shaped glyphs into rows at most `max_width` pixels wide, at most
/// `max_rows` of them; see [`pack_spec`].
pub fn allocate(
    glyphs: &Vec<LetterGlyph>,
    suffix: &Option<LetterGlyph>,
    max_rows: usize,
    max_width: i32,
) -> (rows: Vec<Row>)
    ensures
        rows@ == allocate_spec(glyphs@, *suffix, max_rows as int, max_width as int),
        forall|k: int|
            0 <= k < rows@.len() ==> row_ok(
                widths_of(glyphs@),
                suffix_width(*suffix),
                #[trigger] rows@[k],
            ),
{
    let ghost widths = widths_of(glyphs@);
    let ghost has_suffix = suffix.is_some();
    let ghost sw = suffix_width(*suffix);
    let suffix_w: i64 = match suffix {
        Some(s) => s.bounds.width(),
        None => 0,
    };
    let has: bool = suffix.is_some();
    let limit: i64 = max_width as i64;
    let mut rows: Vec<Row> = Vec::new();
    let mut w: i64 = 0;
    let mut i: usize = 0;
    let n = glyphs.len();
    while i < n
        invariant
            0 <= i <= n,
            n == glyphs@.len(),
            widths == widths_of(glyphs@),
            has_suffix == suffix.is_some(),
            has == has_suffix,
            sw == suffix_width(*suffix),
            suffix_w == sw,
            limit == max_width,
            0 <= w <= u32::MAX,
            rows@.len() == 0 ==> w == 0,
            rows@.len() > 0 ==> {
                &&& rows@.last().start <= rows@.last().end == i
                &&& w == span_width(widths, rows@.last().start as int, rows@.last().end as int)
            },
            forall|k: int| 0 <= k < rows@.len() ==> row_ok(widths, sw, #[trigger] rows@[k]),
            forall|k: int| 0 <= k < rows@.len() ==> !(#[trigger] rows@[k]).suffix,
            pack_spec(widths, has_suffix, sw, max_rows as int, max_width as int, i as int, rows@, w as int)
                == allocate_spec(glyphs@, *suffix, max_rows as int, max_width as int),
        decreases n - i,
    {
        if rows.len() == 0 {
            rows.push(Row { start: i, end: i, suffix: false, width: 0 });
            assert(rows@ =~= seq![Row { start: i, end: i, suffix: false, width: 0 }]);
        }
        let count = rows.len();
        let last = rows[count - 1];
        let letter_w = glyphs[i].bounds.width();
        assert(letter_w == widths[i as int]);
        let w1 = w + letter_w;
        if w1 <= limit {
            rows.set(count - 1, Row { start: last.start, end: i + 1, suffix: false, width: w1 });
            proof {
                lemma_span_extend(widths, last.start as int, last.end as int, i as int);
            }
            w = w1;
            i = i + 1;
        } else if count >= max_rows {
            let (end, cur) = trim(glyphs, last.start, last.end, w, suffix_w, limit);
            rows.set(
                count - 1,
                Row { start: last.start, end, suffix: has, width: cur + suffix_w },
            );
            return rows;
        } else {
            rows.push(Row { start: i, end: i + 1, suffix: false, width: letter_w });
            proof {
                assert(span_width(widths, i as int, i as int + 1) == widths[i as int]) by {
                    assert(span_width(widths, i as int, i as int) == 0);
                }
            }
            w = letter_w;
            i = i + 1;
        }
    }
    rows
}

/// The width of a row that takes glyph `i`: glyphs join a row only while
/// they follow one another, so a row that grows holds the glyphs up to
/// `i`.
proof fn lemma_span_extend(widths: Seq<int>, start: int, end: int, i: int)
    requires
        0 <= start <= end <= i < widths.len(),
    ensures
        end == i ==> span_width(widths, start, i + 1) == span_width(widths, start, end) + widths[i],
{
}

/// A span of glyph widths is never negative.
proof fn lemma_span_nonneg(widths: Seq<int>, start: int, end: int)
    requires
        0 <= start,
        end <= widths.len(),
        forall|k: int| 0 <= k < widths.len() ==> widths[k] >= 0,
    ensures
        span_width(widths, start, end) >= 0,
    decreases end - start,
{
    if end > start {
        lemma_span_nonneg(widths, start, end - 1);
    }
}

/// A trimmed row leaves room for the suffix, or is down to one glyph.
pub proof fn lemma_trim(
    widths: Seq<int>,
    start: int,
    end: int,
    suffix_w: int,
    max_width: int,
)
    requires
        0 <= start <= end <= widths.len(),
    ensures
        ({
            let (e, cur) = trim_spec(
                widths,
                start,
                end,
                span_width(widths, start, end),
                suffix_w,
                max_width,
            );
            &&& start <= e <= end
            &&& cur == span_width(widths, start, e)
            &&& (cur + suffix_w <= max_width || e - start <= 1)
        }),
    decreases end - start,
{
    let cur = span_width(widths, start, end);
    if cur + suffix_w > max_width && end - start > 1 {
        lemma_trim(widths, start, end - 1, suffix_w, max_width);
    }
}

/// Packing into a single row, from a state that the packing itself
/// reaches: the row so far holds the glyphs before `i` and fits.
proof fn lemma_pack_single(
    widths: Seq<int>,
    suffix_w: int,
    max_width: int,
    i: int,
    rows: Seq<Row>,
    w: int,
)
    requires
        widths.len() > 0,
        widths.len() <= usize::MAX,
        forall|k: int| 0 <= k < widths.len() ==> 0 <= #[trigger] widths[k] <= u32::MAX,
        0 <= suffix_w <= u32::MAX,
        max_width <= i32::MAX,
        0 <= i <= widths.len(),
        span_width(widths, 0, widths.len() as int) > max_width,
        rows.len() <= 1,
        rows.len() == 0 ==> i == 0 && w == 0,
        rows.len() == 1 ==> {
            &&& rows[0].start == 0
            &&& rows[0].end == i
            &&& w == span_width(widths, 0, i)
            &&& w <= max_width
        },
    ensures
        ({
            let r = pack_spec(widths, true, suffix_w, 1, max_width, i, rows, w);
            &&& r.len() == 1
            &&& r[0].suffix
            &&& r[0].start == 0
            &&& r[0].end <= widths.len()
            &&& r[0].width == span_width(widths, 0, r[0].end as int) + suffix_w
            &&& (r[0].width <= max_width || r[0].end <= 1)
        }),
    decreases widths.len() - i,
{
    if i < widths.len() {
        let rows1 = if rows.len() == 0 {
            seq![Row { start: i as usize, end: i as usize, suffix: false, width: 0 }]
        } else {
            rows
        };
        let last = rows1.last();
        assert(last.start == 0 && last.end == i);
        assert(w == span_width(widths, 0, i));
        let w1 = w + widths[i];
        if w1 <= max_width {
            let next = rows1.update(
                rows1.len() - 1,
                Row { start: last.start, end: (i + 1) as usize, suffix: false, width: w1 as i64 },
            );
            lemma_pack_single(widths, suffix_w, max_width, i + 1, next, w1);
        } else {
            lemma_trim(widths, 0, i, suffix_w, max_width);
            lemma_span_nonneg(widths, 0, i);
            let (e, cur) = trim_spec(widths, 0, i, w, suffix_w, max_width);
            lemma_span_nonneg(widths, 0, e);
            lemma_span_mono(widths, 0, e, i);
        }
    }
}

/// A longer span of glyph widths is at least as wide.
proof fn lemma_span_mono(widths: Seq<int>, start: int, mid: int, end: int)
    requires
        0 <= start <= mid <= end <= widths.len(),
        forall|k: int| 0 <= k < widths.len() ==> widths[k] >= 0,
    ensures
        span_width(widths, start, mid) <= span_width(widths, start, end),
    decreases end - mid,
{
    if mid < end {
        lemma_span_mono(widths, start, mid, end - 1);
    }
}

/// Truncation to one row.  Where a text is limited to one row, its glyphs
/// together are wider than the room there is, and a suffix is given, the
/// text is laid out as exactly one row that ends with the suffix.  The
/// row, suffix included, fits the room, unless it is down to a single
/// glyph before the suffix.
pub proof fn lemma_single_row_truncation(
    glyphs: Seq<LetterGlyph>,
    suffix: LetterGlyph,
    max_width: int,
)
    requires
        0 < glyphs.len() <= usize::MAX,
        max_width <= i32::MAX,
        span_width(widths_of(glyphs), 0, glyphs.len() as int) > max_width,
    ensures
        ({
            let rows = allocate_spec(glyphs, Some(suffix), 1, max_width);
            &&& rows.len() == 1
            &&& rows[0].suffix
            &&& rows[0].start == 0
            &&& rows[0].end <= glyphs.len()
            &&& rows[0].width == span_width(widths_of(glyphs), 0, rows[0].end as int)
                + suffix.bounds.spec_width()
            &&& (rows[0].width <= max_width || rows[0].end <= 1)
        }),
{
    lemma_pack_single(
        widths_of(glyphs),
        suffix.bounds.spec_width(),
        max_width,
        0,
        Seq::empty(),
        0,
    );
}

/// The least of the row starts; zero for no rows.
pub open spec fn least_start(starts: Seq<u32>) -> int
    decreases starts.len(),
{
    if starts.len() == 0 {
        0
    } else if starts.len() == 1 {
        starts[0] as int
    } else {
        let rest = least_start(starts.drop_last());
        if starts.last() < rest {
            starts.last() as int
        } else {
            rest
        }
    }
}

/// The width of the widest row; zero for no rows.
pub open spec fn widest(rows: Seq<Row>) -> int
    decreases rows.len(),
{
    if rows.len() == 0 {
        0
    } else {
        let rest = widest(rows.drop_last());
        if rows.last().width > rest {
            rows.last().width as int
        } else {
            rest
        }
    }
}

impl Text {
    /// The distance between rows: the given one, else the font size.
    pub open spec fn spec_line_height(&self) -> int {
        match self.line_height {
            Some(h) => h as int,
            None => self.size as int,
        }
    }

    /// The greatest number of rows: the given one, else 999.
    pub open spec fn spec_max_rows(&self) -> int {
        match self.max_rows {
            Some(n) => n as int,
            None => 999,
        }
    }

    /// The anchor of the rows: the explicit offset aligned within the
    /// layout bounds (from the left where no alignment is given); else the
    /// aligned place without offset; else where the previous sibling
    /// ended.
    pub open spec fn spec_x(&self, frame: &Frame) -> int {
        match self.position {
            Some(Position { x: Some(x), .. }) => {
                let align = match self.align {
                    Some(a) => a,
                    None => Align::Left,
                };
                clamp_spec(align.spec_x(x as int, 0, &frame.layout_bounds))
            },
            _ => match self.align {
                Some(a) => clamp_spec(a.spec_x(0, 0, &frame.layout_bounds)),
                None => frame.pos_bounds.left as int,
            },
        }
    }

    /// The top of the text: the explicit offset from the top of the layout
    /// bounds, else where the previous sibling ended.
    pub open spec fn spec_y(&self, frame: &Frame) -> int {
        match self.position {
            Some(Position { y: Some(y), .. }) => clamp_spec(y + frame.layout_bounds.top),
            _ => frame.pos_bounds.top as int,
        }
    }

    /// Where a row `w` wide starts: at the anchor, centered on it, or
    /// ending at it.
    pub open spec fn spec_row_start(&self, frame: &Frame, w: int) -> int {
        let x = self.spec_x(frame);
        match self.align {
            None => x,
            Some(Align::Left) => x,
            Some(Align::Center) => clamp_spec(x - half_spec(w)),
            Some(Align::Right) => clamp_spec(x - w),
        }
    }

    /// The room for a row: from where the previous sibling ended to the
    /// right edge of the layout bounds, or the whole width of the layout
    /// bounds where the text is aligned.
    pub open spec fn spec_max_width(&self, frame: &Frame) -> int {
        match self.align {
            None => clamp_spec(frame.layout_bounds.right - frame.pos_bounds.left),
            Some(_) => frame.layout_bounds.spec_width(),
        }
    }

    /// The pixel column where `row` starts.
    pub open spec fn spec_start_px(&self, frame: &Frame, row: Row) -> int {
        pixels_spec(
            self.spec_row_start(frame, clamp_spec(row.width * (UNITS_PER_PIXEL as int))),
        )
    }

    /// The pixel row where the first row of text starts: the top of the
    /// text, moved down so that the font is centered within the line
    /// height.
    pub open spec fn spec_top_px(&self, frame: &Frame, font_height: int) -> int {
        pixels_spec(
            clamp_spec(
                self.spec_y(frame) + half_spec(
                    clamp_spec(self.spec_line_height() - font_height * (UNITS_PER_PIXEL as int)),
                ),
            ),
        )
    }

    pub fn line_height(&self) -> (r: i32)
        ensures
            r as int == self.spec_line_height(),
    {
        match self.line_height {
            Some(h) => h,
            None => self.size,
        }
    }

    pub fn max_rows(&self) -> (r: usize)
        ensures
            r as int == self.spec_max_rows(),
    {
        match self.max_rows {
            Some(n) => n,
            None => 999,
        }
    }

    pub fn x(&self, frame: &Frame) -> (r: i32)
        requires
            frame.wf(),
        ensures
            r as int == self.spec_x(frame),
    {
        if let Some(position) = self.position {
            if let Some(x) = position.x {
                let align = match self.align {
                    Some(a) => a,
                    None => Align::Left,
                };
                return align.x(x, 0, &frame.layout_bounds);
            }
        }
        if let Some(align) = self.align {
            return align.x(0, 0, &frame.layout_bounds);
        }
        frame.pos_bounds.left()
    }

    pub fn y(&self, frame: &Frame) -> (r: i32)
        requires
            frame.wf(),
        ensures
            r as int == self.spec_y(frame),
    {
        if let Some(position) = self.position {
            if let Some(y) = position.y {
                return clamp(y as i64 + frame.layout_bounds.top() as i64);
            }
        }
        frame.pos_bounds.top()
    }

    pub fn row_start(&self, frame: &Frame, w: i32) -> (r: i32)
        requires
            frame.wf(),
        ensures
            r as int == self.spec_row_start(frame, w as int),
    {
        let x = self.x(frame);
        match self.align {
            None => x,
            Some(Align::Left) => x,
            Some(Align::Center) => clamp(x as i64 - half(w) as i64),
            Some(Align::Right) => clamp(x as i64 - w as i64),
        }
    }

    pub fn max_width(&self, frame: &Frame) -> (r: i32)
        requires
            frame.wf(),
        ensures
            r as int == self.spec_max_width(frame),
    {
        match self.align {
            None => clamp(frame.layout_bounds.right() as i64 - frame.pos_bounds.left() as i64),
            Some(_) => frame.layout_bounds.width(),
        }
    }

    /// The rows of the shaped text within the room that `frame` leaves.
    pub open spec fn spec_rows(&self, frame: &Frame, shaped: &Shaped) -> Seq<Row> {
        allocate_spec(
            shaped.glyphs@,
            shaped.suffix,
            self.spec_max_rows(),
            whole_pixels_spec(self.spec_max_width(frame)),
        )
    }

    /// The rows of the shaped text: see [`allocate`].
    pub fn allocated(&self, frame: &Frame, shaped: &Shaped) -> (rows: Vec<Row>)
        requires
            frame.wf(),
        ensures
            rows@ == self.spec_rows(frame, shaped),
            forall|k: int|
                0 <= k < rows@.len() ==> row_ok(
                    widths_of(shaped.glyphs@),
                    suffix_width(shaped.suffix),
                    #[trigger] rows@[k],
                ),
    {
        allocate(
            &shaped.glyphs,
            &shaped.suffix,
            self.max_rows(),
            whole_pixels(self.max_width(frame)),
        )
    }
}

impl Text {
    /// Where the rows start, one pixel column for each.
    pub open spec fn spec_starts(&self, frame: &Frame, rows: Seq<Row>) -> Seq<u32> {
        Seq::new(rows.len(), |k: int| self.spec_start_px(frame, rows[k]) as u32)
    }

    /// The four edges of the box of the laid-out rows: from the least row
    /// start (from where the previous sibling ended, for no rows) and the
    /// top of the first row, as wide as the widest row and as high as all
    /// line heights together.
    pub open spec fn spec_edges(&self, frame: &Frame, shaped: &Shaped) -> (int, int, int, int) {
        let rows = self.spec_rows(frame, shaped);
        let unit = UNITS_PER_PIXEL as int;
        let left = if rows.len() == 0 {
            frame.pos_bounds.left as int
        } else {
            least_start(self.spec_starts(frame, rows)) * unit
        };
        let top = self.spec_top_px(frame, shaped.font_height as int) * unit;
        (
            left,
            top,
            left + widest(rows) * unit,
            top + rows.len() * self.spec_line_height(),
        )
    }

    /// The box that the text occupies: the positioning bounds for an empty
    /// text; none for a text that was not shaped or whose box is no
    /// rectangle within the coordinate range.
    pub open spec fn spec_bounds(&self, frame: &Frame) -> Option<Rect> {
        if self.content@.len() == 0 {
            Some(frame.pos_bounds)
        } else {
            match self.shaped {
                None => None,
                Some(shaped) => {
                    let e = self.spec_edges(frame, &shaped);
                    if Rect::edges_ok(e.0, e.1, e.2, e.3) {
                        Some(
                            Rect {
                                left: e.0 as i32,
                                top: e.1 as i32,
                                right: e.2 as i32,
                                bottom: e.3 as i32,
                            },
                        )
                    } else {
                        None
                    }
                },
            }
        }
    }

    /// Whether `drawn` is the resolved form of the text: nothing for an
    /// empty text, else its rows and where they go.
    pub open spec fn resolves_to(&self, frame: &Frame, drawn: Option<DrawnText>) -> bool {
        if self.content@.len() == 0 {
            drawn.is_none()
        } else {
            match (self.shaped, drawn) {
                (Some(shaped), Some(d)) => {
                    let rows = self.spec_rows(frame, &shaped);
                    &&& d.rows@ == rows
                    &&& d.starts@ == self.spec_starts(frame, rows)
                    &&& d.top == self.spec_top_px(frame, shaped.font_height as int)
                    &&& d.line_height == pixels_spec(self.spec_line_height())
                    &&& d.color == self.color
                    &&& d.shadow == self.shadow
                },
                _ => false,
            }
        }
    }

    fn place_rows(&self, frame: &Frame, rows: &Vec<Row>) -> (r: (Vec<u32>, u32, i64))
        requires
            frame.wf(),
            forall|k: int| 0 <= k < rows@.len() ==> 0 <= (#[trigger] rows@[k]).width <= 2 * u32::MAX,
        ensures
            r.0@ == self.spec_starts(frame, rows@),
            r.1 as int == least_start(r.0@),
            r.2 as int == widest(rows@),
            0 <= r.2 <= 2 * u32::MAX,
    {
        let mut starts: Vec<u32> = Vec::new();
        let mut least: u32 = 0;
        let mut most: i64 = 0;
        let mut i: usize = 0;
        while i < rows.len()
            invariant
                0 <= i <= rows@.len(),
                frame.wf(),
                forall|k: int|
                    0 <= k < rows@.len() ==> 0 <= (#[trigger] rows@[k]).width <= 2 * u32::MAX,
                starts@ == self.spec_starts(frame, rows@.take(i as int)),
                least as int == least_start(starts@),
                most as int == widest(rows@.take(i as int)),
                0 <= most <= 2 * u32::MAX,
            decreases rows@.len() - i,
        {
            let row = rows[i];
            let start = to_pixels(self.row_start(frame, clamp(row.width * (UNITS_PER_PIXEL as i64))));
            let ghost before = starts@;
            starts.push(start);
            proof {
                let taken = rows@.take(i as int + 1);
                assert(taken.drop_last() =~= rows@.take(i as int));
                assert(taken.last() == row);
                assert(starts@ =~= self.spec_starts(frame, taken));
                assert(starts@.drop_last() =~= before);
            }
            if i == 0 || start < least {
                least = start;
            }
            if row.width > most {
                most = row.width;
            }
            i = i + 1;
        }
        assert(rows@.take(i as int) =~= rows@);
        (starts, least, most)
    }

    /// Resolves the text against the bounds it is given: its rows, where
    /// each of them starts, and the box it occupies.
    ///
    /// An empty text resolves to nothing and occupies the positioning
    /// bounds.  A text that was not shaped is refused, and so is one whose
    /// box is no rectangle within the coordinate range.
    pub fn draw(&self, pos_bounds: Rect, layout_bounds: Rect) -> (r: AppResult<
        (Option<DrawnText>, Rect),
    >)
        requires
            pos_bounds.wf(),
            layout_bounds.wf(),
        ensures
            ({
                let frame = Frame {
                    pos_bounds,
                    layout_bounds,
                    children_bounds: Rect { left: 0, top: 0, right: 0, bottom: 0 },
                };
                match r {
                    Ok((drawn, bounds)) => {
                        &&& self.spec_bounds(&frame) == Some(bounds)
                        &&& bounds.wf()
                        &&& self.resolves_to(&frame, drawn)
                    },
                    Err(e) => {
                        &&& self.spec_bounds(&frame).is_none()
                        &&& e.reports(
                            if self.shaped.is_none() {
                                Fault::TextNotShaped
                            } else {
                                Fault::TextOutOfRange
                            },
                        )
                    },
                }
            }),
    {
        let frame = Frame::new(pos_bounds, layout_bounds);
        if self.content.as_str().is_empty() {
            return Ok((None, pos_bounds));
        }
        let shaped = match &self.shaped {
            Some(shaped) => shaped,
            None => {
                return Err(Fault::TextNotShaped.error());
            },
        };
        let rows = self.allocated(&frame, shaped);
        let count = rows.len();
        let (starts, least, most) = self.place_rows(&frame, &rows);
        let lh = self.line_height();
        let unit = UNITS_PER_PIXEL as i64;
        let lead = clamp(lh as i64 - shaped.font_height as i64 * unit);
        let top = to_pixels(clamp(self.y(&frame) as i64 + half(lead) as i64));
        let left: i64 = if count == 0 {
            pos_bounds.left() as i64
        } else {
            least as i64 * unit
        };
        let top_units: i64 = top as i64 * unit;
        let right: i64 = left + most * unit;
        let capped: i64 = if count > 0x7fff_ffff {
            0x7fff_ffff
        } else {
            count as i64
        };
        assert(-0x4000_0000_0000_0000 <= capped * (lh as i64) <= 0x4000_0000_0000_0000)
            by (nonlinear_arith)
            requires
                0 <= capped <= 0x7fff_ffff,
                -0x8000_0000 <= lh <= 0x7fff_ffff,
        ;
        let bottom: i64 = top_units + capped * (lh as i64);
        proof {
            let e = self.spec_edges(&frame, shaped);
            assert(e.0 == left && e.1 == top_units && e.2 == right);
            if count as int > 0x7fff_ffff {
                let n = count as int;
                let c = capped as int;
                let l = lh as int;
                assert((l > 0 ==> n * l >= 0x7fff_ffff && c * l >= 0x7fff_ffff) && (l < 0 ==> n * l
                    < 0 && c * l < 0) && (l == 0 ==> n * l == 0 && c * l == 0))
                    by (nonlinear_arith)
                    requires
                        n > 0x7fff_ffff,
                        c == 0x7fff_ffff,
                ;
                assert(e.3 == top_units + n * l);
                assert(bottom == top_units + c * l);
                assert(top_units >= 0);
            } else {
                assert(e.3 == bottom);
            }
        }
        match Rect::from_ltrb(left, top_units, right, bottom) {
            None => Err(Fault::TextOutOfRange.error()),
            Some(bounds) => Ok(
                (
                    Some(
                        DrawnText {
                            rows,
                            starts,
                            top,
                            line_height: to_pixels(lh),
                            color: self.color,
                            shadow: self.shadow,
                        },
                    ),
                    bounds,
                ),
            ),
        }
    }
}

/// The bytes of a raster `width` pixels wide after one glyph pixel has
/// been stamped into it with the glyph at `(ox, oy)`: the pixel takes the
/// color shown through its coverage.  A pixel whose place is beyond the
/// raster, or cannot be counted in 32 bits, is left out.
pub open spec fn stamp_one(
    data: Seq<u8>,
    width: u32,
    pixel: LetterPixel,
    ox: int,
    oy: int,
    color: Rgba,
) -> Seq<u8> {
    let px = pixel.0 + ox;
    let py = pixel.1 + oy;
    let idx = width * py + px;
    if 0 <= px <= u32::MAX && 0 <= py <= u32::MAX && idx <= u32::MAX && 4 * idx + 3 < data.len() {
        let p = shade_spec(color, pixel.2);
        data.update(4 * idx, p.0).update(4 * idx + 1, p.1).update(4 * idx + 2, p.2).update(
            4 * idx + 3,
            p.3,
        )
    } else {
        data
    }
}

/// The raster after the first `n` pixels of a glyph have been stamped.
pub open spec fn stamp_pixels(
    data: Seq<u8>,
    width: u32,
    pixels: Seq<LetterPixel>,
    n: int,
    ox: int,
    oy: int,
    color: Rgba,
) -> Seq<u8>
    decreases n,
{
    if n <= 0 {
        data
    } else {
        stamp_one(stamp_pixels(data, width, pixels, n - 1, ox, oy, color), width, pixels[n - 1], ox, oy, color)
    }
}

/// The raster after a glyph has been stamped with its row starting at the
/// pixel row `top` and the glyph at the pixel column `ox`.
pub open spec fn stamp_glyph_spec(
    data: Seq<u8>,
    width: u32,
    glyph: LetterGlyph,
    ox: int,
    top: int,
    color: Rgba,
) -> Seq<u8> {
    stamp_pixels(
        data,
        width,
        glyph.pixels@,
        glyph.pixels@.len() as int,
        ox,
        glyph.bounds.min_y + top,
        color,
    )
}

/// The raster after the glyphs from `start` up to `end` have been
/// stamped one after the other, the first at the pixel column `x0`.
pub open spec fn stamp_span(
    data: Seq<u8>,
    width: u32,
    glyphs: Seq<LetterGlyph>,
    start: int,
    end: int,
    x0: int,
    top: int,
    color: Rgba,
) -> Seq<u8>
    decreases end - start,
{
    if end <= start {
        data
    } else {
        stamp_glyph_spec(
            stamp_span(data, width, glyphs, start, end - 1, x0, top, color),
            width,
            glyphs[end - 1],
            x0 + span_width(widths_of(glyphs), start, end - 1),
            top,
            color,
        )
    }
}

/// The raster after a row has been stamped: its glyphs, then the suffix
/// where the row ends with it.
pub open spec fn stamp_row(
    data: Seq<u8>,
    width: u32,
    shaped: Shaped,
    row: Row,
    x0: int,
    top: int,
    color: Rgba,
) -> Seq<u8> {
    let body = stamp_span(
        data,
        width,
        shaped.glyphs@,
        row.start as int,
        row.end as int,
        x0,
        top,
        color,
    );
    match shaped.suffix {
        Some(s) => if row.suffix {
            stamp_glyph_spec(
                body,
                width,
                s,
                x0 + span_width(widths_of(shaped.glyphs@), row.start as int, row.end as int),
                top,
                color,
            )
        } else {
            body
        },
        None => body,
    }
}

/// The raster after the first `n` rows of a resolved text have been
/// stamped, each one line height below the one before.
pub open spec fn stamp_rows(
    data: Seq<u8>,
    width: u32,
    shaped: Shaped,
    drawn: DrawnText,
    n: int,
) -> Seq<u8>
    decreases n,
{
    if n <= 0 {
        data
    } else {
        stamp_row(
            stamp_rows(data, width, shaped, drawn, n - 1),
            width,
            shaped,
            drawn.rows@[n - 1],
            drawn.starts@[n - 1] as int,
            drawn.top + (n - 1) * drawn.line_height,
            drawn.color,
        )
    }
}

/// Stamps a glyph into a raster; see [`stamp_glyph_spec`].
pub fn stamp_glyph(
    data: &mut Vec<u8>,
    width: u32,
    glyph: &LetterGlyph,
    ox: i64,
    top: i64,
    color: Rgba,
)
    requires
        -0x4000_0000_0000_0000 <= ox <= 0x4000_0000_0000_0000,
        -0x4000_0000_0000_0000 <= top <= 0x4000_0000_0000_0000,
    ensures
        final(data)@ == stamp_glyph_spec(old(data)@, width, *glyph, ox as int, top as int, color),
        final(data)@.len() == old(data)@.len(),
{
    let oy: i64 = glyph.bounds.min_y as i64 + top;
    let n = glyph.pixels.len();
    let ghost before = data@;
    let mut i: usize = 0;
    while i < n
        invariant
            0 <= i <= n,
            n == glyph.pixels@.len(),
            oy == glyph.bounds.min_y + top,
            -0x4000_0000_0000_0000 <= ox <= 0x4000_0000_0000_0000,
            -0x4000_0000_0000_0000 - 0x8000_0000 <= oy <= 0x4000_0000_0000_0000 + 0x8000_0000,
            data@.len() == before.len(),
            data@ == stamp_pixels(before, width, glyph.pixels@, i as int, ox as int, oy as int, color),
        decreases n - i,
    {
        let pixel = glyph.pixels[i];
        let px: i64 = pixel.0 as i64 + ox;
        let py: i64 = pixel.1 as i64 + oy;
        if 0 <= px && px <= u32::MAX as i64 && 0 <= py && py <= u32::MAX as i64 {
            assert(0 <= (width as int) * (py as int) <= 0xffff_ffff * 0xffff_ffff)
                by (nonlinear_arith)
                requires
                    0 <= width <= 0xffff_ffff,
                    0 <= py <= 0xffff_ffff,
            ;
            let idx: u64 = (width as u64) * (py as u64) + px as u64;
            if idx <= u32::MAX as u64 {
                let at: usize = idx as usize;
                if at < data.len() / 4 {
                    let p = shade(color, pixel.2);
                    data.set(4 * at, p.0);
                    data.set(4 * at + 1, p.1);
                    data.set(4 * at + 2, p.2);
                    data.set(4 * at + 3, p.3);
                }
            }
        }
        i = i + 1;
    }
}

/// The greatest number of rows that can be stamped.
pub const MAX_PAINTED_ROWS: usize = 0x100_0000;

/// Whether the rows of a resolved text name glyphs of `shaped`, every row
/// has its start, and there are no more rows than can be stamped.
pub open spec fn rows_fit(shaped: &Shaped, drawn: &DrawnText) -> bool {
    &&& drawn.starts@.len() == drawn.rows@.len()
    &&& drawn.rows@.len() <= MAX_PAINTED_ROWS
    &&& forall|k: int|
        0 <= k < drawn.rows@.len() ==> row_ok(
            widths_of(shaped.glyphs@),
            suffix_width(shaped.suffix),
            #[trigger] drawn.rows@[k],
        )
}

/// Stamps the glyphs of a row into a raster; see [`stamp_row`].
fn stamp_row_into(
    data: &mut Vec<u8>,
    width: u32,
    shaped: &Shaped,
    row: Row,
    x0: u32,
    top: i64,
    color: Rgba,
)
    requires
        row_ok(widths_of(shaped.glyphs@), suffix_width(shaped.suffix), row),
        0 <= top <= 0x2000_0000_0000_0000,
    ensures
        final(data)@ == stamp_row(old(data)@, width, *shaped, row, x0 as int, top as int, color),
        final(data)@.len() == old(data)@.len(),
{
    let ghost before = data@;
    let ghost widths = widths_of(shaped.glyphs@);
    let mut x: i64 = x0 as i64;
    let mut i: usize = row.start;
    while i < row.end
        invariant
            row.start <= i <= row.end <= shaped.glyphs@.len(),
            widths == widths_of(shaped.glyphs@),
            0 <= top <= 0x2000_0000_0000_0000,
            x == x0 + span_width(widths, row.start as int, i as int),
            span_width(widths, row.start as int, row.end as int) <= 2 * u32::MAX,
            data@.len() == before.len(),
            data@ == stamp_span(
                before,
                width,
                shaped.glyphs@,
                row.start as int,
                i as int,
                x0 as int,
                top as int,
                color,
            ),
        decreases row.end - i,
    {
        proof {
            lemma_span_nonneg(widths, row.start as int, i as int);
            lemma_span_mono(widths, row.start as int, i as int + 1, row.end as int);
        }
        stamp_glyph(data, width, &shaped.glyphs[i], x, top, color);
        x = x + shaped.glyphs[i].bounds.width();
        i = i + 1;
    }
    if row.suffix {
        if let Some(s) = &shaped.suffix {
            stamp_glyph(data, width, s, x, top, color);
        }
    }
}

/// The width of the glyphs from `start` up to `end`, where it is at most
/// twice what 32 bits count.
fn span_within(glyphs: &Vec<LetterGlyph>, start: usize, end: usize) -> (r: Option<i64>)
    requires
        start <= end <= glyphs@.len(),
    ensures
        match r {
            Some(w) => w == span_width(widths_of(glyphs@), start as int, end as int) && 0 <= w
                <= 2 * u32::MAX,
            None => span_width(widths_of(glyphs@), start as int, end as int) > 2 * u32::MAX,
        },
{
    let ghost widths = widths_of(glyphs@);
    let mut w: i64 = 0;
    let mut i: usize = start;
    while i < end
        invariant
            start <= i <= end <= glyphs@.len(),
            widths == widths_of(glyphs@),
            w == span_width(widths, start as int, i as int),
            0 <= w <= 2 * u32::MAX,
        decreases end - i,
    {
        w = w + glyphs[i].bounds.width();
        i = i + 1;
        if w > 2 * (u32::MAX as i64) {
            proof {
                lemma_span_mono(widths, start as int, i as int, end as int);
            }
            return None;
        }
    }
    Some(w)
}

/// Whether a resolved text can be stamped with the glyphs of `shaped`;
/// see [`rows_fit`].
pub fn can_paint(shaped: &Shaped, drawn: &DrawnText) -> (r: bool)
    ensures
        r == rows_fit(shaped, drawn),
{
    let n = drawn.rows.len();
    if drawn.starts.len() != n || n > MAX_PAINTED_ROWS {
        return false;
    }
    let suffix_w: i64 = match &shaped.suffix {
        Some(s) => s.bounds.width(),
        None => 0,
    };
    let mut k: usize = 0;
    while k < n
        invariant
            0 <= k <= n,
            n == drawn.rows@.len(),
            drawn.starts@.len() == n,
            n <= MAX_PAINTED_ROWS,
            suffix_w == suffix_width(shaped.suffix),
            0 <= suffix_w <= u32::MAX,
            forall|j: int|
                0 <= j < k ==> row_ok(
                    widths_of(shaped.glyphs@),
                    suffix_width(shaped.suffix),
                    #[trigger] drawn.rows@[j],
                ),
        decreases n - k,
    {
        let row = drawn.rows[k];
        if row.start > row.end || row.end > shaped.glyphs.len() {
            return false;
        }
        let extra: i64 = if row.suffix {
            suffix_w
        } else {
            0
        };
        match span_within(&shaped.glyphs, row.start, row.end) {
            None => {
                proof {
                    assert(!row_ok(
                        widths_of(shaped.glyphs@),
                        suffix_width(shaped.suffix),
                        drawn.rows@[k as int],
                    ));
                }
                return false;
            },
            Some(w) => {
                if row.width != w + extra || row.width > 2 * (u32::MAX as i64) {
                    return false;
                }
            },
        }
        k = k + 1;
    }
    true
}

impl Text {
    /// Stamps the glyphs of the resolved text into `buffer`, row by row.
    /// Each pixel that a glyph covers takes the color of the text shown
    /// through the coverage; see [`stamp_rows`].  A text whose rows do not
    /// fit the shaped glyphs is refused, and the buffer is left as it is.
    pub fn paint(shaped: &Shaped, drawn: &DrawnText, buffer: &mut Buffer) -> (r: AppResult)
        ensures
            final(buffer).width == old(buffer).width,
            final(buffer).height == old(buffer).height,
            final(buffer).data@.len() == old(buffer).data@.len(),
            match r {
                Ok(_) => {
                    &&& rows_fit(shaped, drawn)
                    &&& final(buffer).data@ == stamp_rows(
                        old(buffer).data@,
                        old(buffer).width,
                        *shaped,
                        *drawn,
                        drawn.rows@.len() as int,
                    )
                },
                Err(e) => {
                    &&& !rows_fit(shaped, drawn)
                    &&& final(buffer).data@ == old(buffer).data@
                    &&& e.reports(Fault::RowsDoNotFit)
                },
            },
    {
        if !can_paint(shaped, drawn) {
            return Err(Fault::RowsDoNotFit.error());
        }
        let ghost before = buffer.data@;
        let width = buffer.width;
        let n = drawn.rows.len();
        let mut top: i64 = drawn.top as i64;
        let mut k: usize = 0;
        while k < n
            invariant
                0 <= k <= n,
                n == drawn.rows@.len(),
                rows_fit(shaped, drawn),
                buffer.width == width,
                buffer.width == old(buffer).width,
                buffer.height == old(buffer).height,
                top == drawn.top + k * drawn.line_height,
                0 <= top <= 0x1_0000_0000 + k * 0x1_0000_0000,
                n <= 0x100_0000,
                buffer.data@.len() == before.len(),
                buffer.data@ == stamp_rows(before, width, *shaped, *drawn, k as int),
            decreases n - k,
        {
            stamp_row_into(
                &mut buffer.data,
                width,
                shaped,
                drawn.rows[k],
                drawn.starts[k],
                top,
                drawn.color,
            );
            assert((k + 1) * drawn.line_height == k * drawn.line_height + drawn.line_height)
                by (nonlinear_arith);
            top = top + drawn.line_height as i64;
            k = k + 1;
        }
        Ok(())
    }
}

/// The first `n` pixels of a glyph moved by `(dx, dy)`, those left out
/// that would leave what 32 bits count.
pub open spec fn moved_pixels(pixels: Seq<LetterPixel>, n: int, dx: int, dy: int) -> Seq<
    LetterPixel,
>
    decreases n,
{
    if n <= 0 {
        Seq::empty()
    } else {
        let rest = moved_pixels(pixels, n - 1, dx, dy);
        let p = pixels[n - 1];
        let x = p.0 + dx;
        let y = p.1 + dy;
        if 0 <= x <= u32::MAX && 0 <= y <= u32::MAX {
            rest.push(LetterPixel(x as u32, y as u32, p.2))
        } else {
            rest
        }
    }
}

/// The pixels of the first `n` glyphs as pixels of one glyph whose box
/// starts at `(base_x, base_y)`: each glyph keeps its place.
pub open spec fn joined_pixels(glyphs: Seq<LetterGlyph>, n: int, base_x: int, base_y: int) -> Seq<
    LetterPixel,
>
    decreases n,
{
    if n <= 0 {
        Seq::empty()
    } else {
        let g = glyphs[n - 1];
        joined_pixels(glyphs, n - 1, base_x, base_y) + moved_pixels(
            g.pixels@,
            g.pixels@.len() as int,
            g.bounds.min_x - base_x,
            g.bounds.min_y - base_y,
        )
    }
}

/// The glyphs of a truncation suffix as one glyph: its box reaches from
/// the start of the first glyph to the end of the last, and it holds the
/// pixels of all of them, each glyph in its place.  No glyphs make no
/// suffix.
pub fn join_suffix(glyphs: &Vec<LetterGlyph>) -> (r: Option<LetterGlyph>)
    ensures
        glyphs@.len() == 0 ==> r.is_none(),
        glyphs@.len() > 0 ==> r.is_some() && {
            let first = glyphs@[0].bounds;
            let last = glyphs@.last().bounds;
            &&& r.unwrap().bounds == (GlyphBounds {
                min_x: first.min_x,
                min_y: first.min_y,
                max_x: last.max_x,
                max_y: last.max_y,
            })
            &&& r.unwrap().pixels@ == joined_pixels(
                glyphs@,
                glyphs@.len() as int,
                first.min_x as int,
                first.min_y as int,
            )
        },
{
    let n = glyphs.len();
    if n == 0 {
        return None;
    }
    let first = glyphs[0].bounds;
    let last = glyphs[n - 1].bounds;
    let mut pixels: Vec<LetterPixel> = Vec::new();
    let mut i: usize = 0;
    while i < n
        invariant
            0 <= i <= n,
            n == glyphs@.len(),
            pixels@ == joined_pixels(glyphs@, i as int, first.min_x as int, first.min_y as int),
        decreases n - i,
    {
        let g = &glyphs[i];
        let dx: i64 = g.bounds.min_x as i64 - first.min_x as i64;
        let dy: i64 = g.bounds.min_y as i64 - first.min_y as i64;
        let ghost before = pixels@;
        let m = g.pixels.len();
        let mut k: usize = 0;
        while k < m
            invariant
                0 <= k <= m,
                m == g.pixels@.len(),
                dx == g.bounds.min_x - first.min_x,
                dy == g.bounds.min_y - first.min_y,
                pixels@ == before + moved_pixels(g.pixels@, k as int, dx as int, dy as int),
            decreases m - k,
        {
            let p = g.pixels[k];
            let x: i64 = p.0 as i64 + dx;
            let y: i64 = p.1 as i64 + dy;
            if 0 <= x && x <= u32::MAX as i64 && 0 <= y && y <= u32::MAX as i64 {
                pixels.push(LetterPixel(x as u32, y as u32, p.2));
            }
            assert(pixels@ =~= before + moved_pixels(g.pixels@, k as int + 1, dx as int, dy as int));
            k = k + 1;
        }
        i = i + 1;
    }
    Some(
        LetterGlyph {
            bounds: GlyphBounds {
                min_x: first.min_x,
                min_y: first.min_y,
                max_x: last.max_x,
                max_y: last.max_y,
            },
            pixels,
        },
    )
}

} // verus!
