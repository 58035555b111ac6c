//! The canvas pixel grid and its plain-text serialization.
//!
//! A canvas serializes to a three-line header (`P3`, the dimensions, the
//! maximum byte value) followed by one or more lines per row of pixels. A
//! row's token string is wrapped so that no emitted line exceeds the
//! 70-character limit; a wrap always falls on a space, never inside a
//! number, and rejoining the two segments with a single space reproduces
//! the row's token string exactly.

use vstd::prelude::*;
use vstd::string::*;

use substring::Substring;

use crate::color::{
    Color, decimal_of, decimal_string, lemma_pixel_tokens_space, pixel_tokens, spec_black,
    MAX_COLOR_VALUE,
};

verus! {

/// Position from which the wrap scan starts; splitting at or before it keeps
/// every emitted line within the 70-character format limit.
pub const WRAP_LIMIT: usize = 69;

/// The token strings of `parts`, joined with single spaces.
pub open spec fn join_spaces(parts: Seq<Seq<char>>) -> Seq<char>
    decreases parts.len(),
{
    if parts.len() == 0 {
        Seq::empty()
    } else if parts.len() == 1 {
        parts[0]
    } else {
        join_spaces(parts.drop_last()) + seq![' '] + parts.last()
    }
}

/// The views of a vector of strings.
pub open spec fn views_of(strs: Seq<String>) -> Seq<Seq<char>> {
    strs.map_values(|s: String| s@)
}

/// The full space-joined token string of one canvas row.
pub open spec fn row_tokens(row: Seq<Color>) -> Seq<char> {
    join_spaces(row.map_values(|c: Color| pixel_tokens(c)))
}

/// Index of the last space at or before `i`, or -1 when there is none.
pub open spec fn last_space(s: Seq<char>, i: int) -> int
    decreases i,
{
    if i < 0 {
        -1
    } else if s[i] == ' ' {
        i
    } else if i == 0 {
        -1
    } else {
        last_space(s, i - 1)
    }
}

/// Some character at or before index `max` is a space.
pub open spec fn has_space_upto(s: Seq<char>, max: int) -> bool {
    exists|i: int| 0 <= i <= max && i < s.len() && s[i] == ' '
}

/// The two segments a token string wraps into: the string itself and an
/// empty remainder when it already fits, otherwise the parts before and
/// after the last space at or before `max`, with that space consumed.
pub open spec fn split_spec(s: Seq<char>, max: int) -> (Seq<char>, Seq<char>) {
    if s.len() <= max {
        (s, Seq::empty())
    } else {
        let i = last_space(s, max);
        (s.subrange(0, i), s.subrange(i + 1, s.len() as int))
    }
}

pub open spec fn is_blank(s: Seq<char>) -> bool {
    forall|i: int| 0 <= i < s.len() ==> s[i] == ' '
}

/// A wrapped row: one segment when the remainder is empty or blank, else
/// the two segments joined by a newline.
pub open spec fn wrap_spec(s: Seq<char>, max: int) -> Seq<char> {
    let lr = split_spec(s, max);
    if is_blank(lr.1) {
        lr.0
    } else {
        lr.0 + seq!['\n'] + lr.1
    }
}

/// When a space exists at or before `max`, `last_space` finds one: the
/// result is a space's index between 0 and `max`.
pub proof fn lemma_last_space_found(s: Seq<char>, max: int)
    requires
        0 <= max < s.len(),
        has_space_upto(s, max),
    ensures
        0 <= last_space(s, max) <= max,
        s[last_space(s, max)] == ' ',
    decreases max,
{
    if s[max] != ' ' {
        let j = choose|j: int| 0 <= j <= max && j < s.len() && s[j] == ' ';
        assert(0 <= j <= max - 1 && j < s.len() && s[j] == ' ');
        lemma_last_space_found(s, max - 1);
    }
}

/// Splitting a token string at the wrap point and rejoining the two
/// segments with a single space reproduces the original string exactly.
pub proof fn lemma_split_round_trip(s: Seq<char>, max: int)
    requires
        0 <= max,
        s.len() > max,
        has_space_upto(s, max),
    ensures
        split_spec(s, max).0 + seq![' '] + split_spec(s, max).1 == s,
        split_spec(s, max).0.len() <= max,
{
    lemma_last_space_found(s, max);
    let i = last_space(s, max);
    assert(s.subrange(0, i) + seq![' '] + s.subrange(i + 1, s.len() as int) =~= s);
}

/// The first of the joined parts is a prefix of the join.
pub proof fn lemma_join_prefix(parts: Seq<Seq<char>>)
    requires
        parts.len() >= 1,
    ensures
        parts[0].len() <= join_spaces(parts).len(),
        forall|i: int|
            0 <= i < parts[0].len() ==> #[trigger] join_spaces(parts)[i] == parts[0][i],
    decreases parts.len(),
{
    if parts.len() > 1 {
        lemma_join_prefix(parts.drop_last());
        assert(parts.drop_last()[0] == parts[0]);
    }
}

/// A row's token string either fits on one line or holds a space early
/// enough for the wrap scan to find.
pub proof fn lemma_row_tokens_has_space(row: Seq<Color>)
    ensures
        row_tokens(row).len() > WRAP_LIMIT ==> has_space_upto(
            row_tokens(row),
            WRAP_LIMIT as int,
        ),
{
    if row.len() >= 1 {
        let parts = row.map_values(|c: Color| pixel_tokens(c));
        lemma_join_prefix(parts);
        lemma_pixel_tokens_space(row[0]);
        let i = choose|i: int|
            1 <= i <= 3 && i < pixel_tokens(row[0]).len() && #[trigger] pixel_tokens(row[0])[i]
                == ' ';
        assert(row_tokens(row)[i] == ' ');
    }
}

/// Relies on substring::Substring::substring for str: the returned slice
/// holds the characters of `s` with indices in [from, to).
#[verifier::external_body]
fn substring_of(s: &str, from: usize, to: usize) -> (r: String)
    requires
        from <= to,
        to <= s@.len(),
    ensures
        r@ == s@.subrange(from as int, to as int),
{
    s.substring(from, to).to_string()
}

/// Index of the last space at or before `max`: the wrap point of a row
/// string too long for one line.
pub fn ppm_space_index(s: &str, max: usize) -> (r: usize)
    requires
        max < s@.len(),
        has_space_upto(s@, max as int),
    ensures
        r as int == last_space(s@, max as int),
        r <= max,
        s@[r as int] == ' ',
{
    proof {
        lemma_last_space_found(s@, max as int);
    }
    let mut i: usize = max;
    loop
        invariant
            i <= max < s@.len(),
            has_space_upto(s@, i as int),
            last_space(s@, max as int) == last_space(s@, i as int),
        decreases i,
    {
        if s.get_char(i) == ' ' {
            return i;
        }
        proof {
            let j = choose|j: int| 0 <= j <= i && j < s@.len() && s@[j] == ' ';
            assert(0 <= j <= i - 1 && j < s@.len() && s@[j] == ' ');
        }
        i = i - 1;
    }
}

/// The two wrap segments of `s`, as owned strings.
fn split_impl(s: &str, max: usize) -> (r: (String, String))
    requires
        s@.len() > max ==> has_space_upto(s@, max as int),
    ensures
        r.0@ == split_spec(s@, max as int).0,
        r.1@ == split_spec(s@, max as int).1,
{
    let n = s.unicode_len();
    if n > max {
        let sp = ppm_space_index(s, max);
        let left = substring_of(s, 0, sp);
        let right = substring_of(s, sp + 1, n);
        (left, right)
    } else {
        (s.to_owned(), String::new())
    }
}

/// Splits a token string for wrapping: a string that fits within `max`
/// characters comes back whole with an empty remainder; a longer one is cut
/// at the last space at or before `max`, the space kept in neither segment,
/// so that rejoining the segments with a single space restores the string.
pub fn ppm_split(s: &str, max: usize) -> (r: [String; 2])
    requires
        s@.len() > max ==> has_space_upto(s@, max as int),
    ensures
        r[0]@ == split_spec(s@, max as int).0,
        r[1]@ == split_spec(s@, max as int).1,
        s@.len() <= max ==> r[0]@ == s@ && r[1]@.len() == 0,
        s@.len() > max ==> r[0]@ + seq![' '] + r[1]@ == s@ && r[0]@.len() <= max,
{
    let (left, right) = split_impl(s, max);
    proof {
        if s@.len() > max {
            lemma_split_round_trip(s@, max as int);
        }
    }
    [left, right]
}

/// Whether every character of `s` is a space.
fn is_blank_str(s: &str) -> (r: bool)
    ensures
        r == is_blank(s@),
{
    let n = s.unicode_len();
    let mut k: usize = 0;
    while k < n
        invariant
            k <= n == s@.len(),
            forall|j: int| 0 <= j < k ==> s@[j] == ' ',
        decreases n - k,
    {
        if s.get_char(k) != ' ' {
            return false;
        }
        k = k + 1;
    }
    true
}

/// Joins the given token strings with single spaces and wraps the result:
/// the joined string when it fits within `max` characters, otherwise its
/// two wrap segments separated by a newline, the second segment dropped
/// when it is empty or all spaces.
pub fn ppm_join(strs: &Vec<String>, max: usize) -> (r: String)
    requires
        join_spaces(views_of(strs@)).len() > max ==> has_space_upto(
            join_spaces(views_of(strs@)),
            max as int,
        ),
    ensures
        r@ == wrap_spec(join_spaces(views_of(strs@)), max as int),
{
    let parts = Ghost(views_of(strs@));
    let mut joined = String::new();
    let mut k: usize = 0;
    while k < strs.len()
        invariant
            k <= strs@.len(),
            parts@ == views_of(strs@),
            joined@ == join_spaces(parts@.take(k as int)),
        decreases strs@.len() - k,
    {
        if k > 0 {
            joined.append(" ");
        }
        joined.append(strs[k].as_str());
        proof {
            reveal_strlit(" ");
            assert(parts@.take(k as int + 1).drop_last() =~= parts@.take(k as int));
            assert(parts@.take(k as int + 1).last() == strs@[k as int]@);
            if k == 0 {
                assert(joined@ =~= join_spaces(parts@.take(1)));
            }
        }
        k = k + 1;
    }
    proof {
        assert(parts@.take(strs@.len() as int) =~= parts@);
    }
    let (left, right) = split_impl(joined.as_str(), max);
    if is_blank_str(right.as_str()) {
        left
    } else {
        let mut out = left;
        out.append("\n");
        out.append(right.as_str());
        proof {
            reveal_strlit("\n");
            assert(out@ =~= wrap_spec(join_spaces(views_of(strs@)), max as int));
        }
        out
    }
}

/// The header of a serialized document: the magic token, the dimensions,
/// and the maximum byte value, each on its own line.
pub open spec fn header_text(width: nat, height: nat) -> Seq<char> {
    seq!['P', '3', '\n'] + decimal_of(width) + seq![' '] + decimal_of(height) + seq!['\n']
        + decimal_of(MAX_COLOR_VALUE as nat) + seq!['\n']
}

/// The given lines, each followed by a newline.
pub open spec fn lines_text(lines: Seq<Seq<char>>) -> Seq<char>
    decreases lines.len(),
{
    if lines.len() == 0 {
        Seq::empty()
    } else {
        lines_text(lines.drop_last()) + lines.last() + seq!['\n']
    }
}

/// The wrapped body lines of a pixel grid, one entry per row.
pub open spec fn grid_lines(grid: Seq<Seq<Color>>) -> Seq<Seq<char>> {
    grid.map_values(|row: Seq<Color>| wrap_spec(row_tokens(row), WRAP_LIMIT as int))
}

/// The serialized document of a pixel grid: the header, then every row's
/// wrapped token string, each emitted line ending in a newline.
pub open spec fn ppm_text(width: nat, height: nat, grid: Seq<Seq<Color>>) -> Seq<char> {
    header_text(width, height) + lines_text(grid_lines(grid))
}

/// The final character of any serialized document is a newline.
pub proof fn lemma_ppm_text_ends_newline(width: nat, height: nat, grid: Seq<Seq<Color>>)
    ensures
        ppm_text(width, height, grid).len() >= 1,
        ppm_text(width, height, grid).last() == '\n',
{
    let lines = grid_lines(grid);
    if lines.len() == 0 {
        assert(ppm_text(width, height, grid) =~= header_text(width, height));
    }
}

/// One horizontal row of pixels.
#[derive(Clone, Debug)]
pub struct CanvasRow {
    pixels: Vec<Color>,
}

impl View for CanvasRow {
    type V = Seq<Color>;

    closed spec fn view(&self) -> Seq<Color> {
        self.pixels@
    }
}

impl CanvasRow {
    /// A row of `width` cells, every one holding `color`.
    pub fn new(width: usize, color: Color) -> (row: CanvasRow)
        ensures
            row@.len() == width,
            forall|i: int| 0 <= i < width ==> row@[i] == color,
    {
        let mut pixels: Vec<Color> = Vec::new();
        let mut i: usize = 0;
        while i < width
            invariant
                i <= width,
                pixels@.len() == i,
                forall|j: int| 0 <= j < i ==> pixels@[j] == color,
            decreases width - i,
        {
            pixels.push(color);
            i = i + 1;
        }
        CanvasRow { pixels }
    }

    /// The row's wrapped token string: its pixels' byte values as
    /// space-separated decimal integers, split over two lines when too long
    /// for one.
    pub fn ppm(&self) -> (s: String)
        ensures
            s@ == wrap_spec(row_tokens(self@), WRAP_LIMIT as int),
    {
        let mut strs: Vec<String> = Vec::new();
        let mut i: usize = 0;
        while i < self.pixels.len()
            invariant
                i <= self.pixels@.len(),
                strs@.len() == i,
                forall|j: int| 0 <= j < i ==> #[trigger] strs@[j]@ == pixel_tokens(self.pixels@[j]),
            decreases self.pixels@.len() - i,
        {
            let p = self.pixels[i];
            strs.push(p.ppm());
            i = i + 1;
        }
        proof {
            assert(views_of(strs@) =~= self.pixels@.map_values(|c: Color| pixel_tokens(c)));
            lemma_row_tokens_has_space(self.pixels@);
        }
        ppm_join(&strs, WRAP_LIMIT)
    }
}

/// A fixed-size grid of colors, addressed by column and row.
#[derive(Clone, Debug)]
pub struct Canvas {
    height: usize,
    width: usize,
    rows: Vec<CanvasRow>,
}

impl View for Canvas {
    type V = Seq<Seq<Color>>;

    closed spec fn view(&self) -> Seq<Seq<Color>> {
        self.rows@.map_values(|r: CanvasRow| r@)
    }
}

impl Canvas {
    pub closed spec fn spec_width(&self) -> nat {
        self.width as nat
    }

    pub closed spec fn spec_height(&self) -> nat {
        self.height as nat
    }

    /// The grid's dimensions never change after construction: there are
    /// `height` rows of `width` cells each, both positive.
    pub open spec fn wf(&self) -> bool {
        &&& self@.len() == self.spec_height()
        &&& forall|y: int| 0 <= y < self@.len() ==> (#[trigger] self@[y]).len() == self.spec_width()
        &&& self.spec_width() >= 1
        &&& self.spec_height() >= 1
    }

    /// A canvas of the given positive dimensions with every cell black.
    pub fn new(width: usize, height: usize) -> (c: Canvas)
        requires
            width >= 1,
            height >= 1,
        ensures
            c.wf(),
            c.spec_width() == width,
            c.spec_height() == height,
            forall|y: int, x: int|
                0 <= y < height && 0 <= x < width ==> #[trigger] c@[y][x] == spec_black(),
    {
        let black = Color::new(0, 0, 0);
        let mut rows: Vec<CanvasRow> = Vec::new();
        let mut y: usize = 0;
        while y < height
            invariant
                y <= height,
                black == spec_black(),
                rows@.len() == y,
                forall|i: int| 0 <= i < y ==> (#[trigger] rows@[i])@.len() == width,
                forall|i: int, x: int|
                    0 <= i < y && 0 <= x < width ==> #[trigger] rows@[i]@[x] == spec_black(),
            decreases height - y,
        {
            let row = CanvasRow::new(width, black);
            rows.push(row);
            proof {
                assert(rows@[y as int] == row);
                assert forall|x: int| 0 <= x < width implies #[trigger] rows@[y as int]@[x]
                    == spec_black() by {
                    assert(rows@[y as int]@[x] == row@[x]);
                }
            }
            y = y + 1;
        }
        Canvas { height, width, rows }
    }

    pub fn width(&self) -> (w: usize)
        ensures
            w == self.spec_width(),
    {
        self.width
    }

    pub fn height(&self) -> (h: usize)
        ensures
            h == self.spec_height(),
    {
        self.height
    }

    /// Replaces the cell at column `x`, row `y` with `color` and returns the
    /// previous value of that cell; no other cell and neither dimension
    /// changes.
    pub fn write_pixel(&mut self, x: usize, y: usize, color: Color) -> (prev: Color)
        requires
            old(self).wf(),
            x < old(self).spec_width(),
            y < old(self).spec_height(),
        ensures
            final(self).wf(),
            final(self).spec_width() == old(self).spec_width(),
            final(self).spec_height() == old(self).spec_height(),
            final(self)@ == old(self)@.update(
                y as int,
                old(self)@[y as int].update(x as int, color),
            ),
            prev == old(self)@[y as int][x as int],
    {
        proof {
            assert(self@[y as int] == self.rows@[y as int]@);
        }
        let prev = self.rows[y].pixels[x];
        self.rows[y].pixels[x] = color;
        proof {
            assert(self@ =~= old(self)@.update(
                y as int,
                old(self)@[y as int].update(x as int, color),
            ));
        }
        prev
    }

    /// A copy of the color stored at column `x`, row `y`.
    pub fn pixel_at(&self, x: usize, y: usize) -> (c: Color)
        requires
            self.wf(),
            x < self.spec_width(),
            y < self.spec_height(),
        ensures
            c == self@[y as int][x as int],
    {
        proof {
            assert(self@[y as int] == self.rows@[y as int]@);
        }
        self.rows[y].pixels[x]
    }

    /// The canvas serialized as its plain-text document.
    pub fn canvas_to_ppm(&self) -> (s: String)
        requires
            self.wf(),
        ensures
            s@ == ppm_text(self.spec_width(), self.spec_height(), self@),
            s@.len() >= 1,
            s@.last() == '\n',
    {
        let mut s = "P3\n".to_owned();
        let w = decimal_string(self.width as u64);
        s.append(w.as_str());
        s.append(" ");
        let h = decimal_string(self.height as u64);
        s.append(h.as_str());
        s.append("\n255\n");
        proof {
            reveal_strlit("P3\n");
            reveal_strlit(" ");
            reveal_strlit("\n255\n");
            assert(decimal_of(2) =~= seq!['2']);
            assert(decimal_of(25) =~= seq!['2', '5']);
            assert(decimal_of(255) =~= seq!['2', '5', '5']);
            assert(s@ =~= header_text(self.spec_width(), self.spec_height()) + lines_text(
                grid_lines(self@).take(0),
            ));
        }
        let mut y: usize = 0;
        while y < self.height
            invariant
                y <= self@.len(),
                self.wf(),
                s@ == header_text(self.spec_width(), self.spec_height()) + lines_text(
                    grid_lines(self@).take(y as int),
                ),
            decreases self.spec_height() - y,
        {
            let line = self.rows[y].ppm();
            s.append(line.as_str());
            s.append("\n");
            proof {
                reveal_strlit("\n");
                assert(grid_lines(self@).take(y as int + 1).drop_last() =~= grid_lines(
                    self@,
                ).take(y as int));
                assert(grid_lines(self@).take(y as int + 1).last() == grid_lines(self@)[y as int]);
                assert(s@ =~= header_text(self.spec_width(), self.spec_height()) + lines_text(
                    grid_lines(self@).take(y as int + 1),
                ));
            }
            y = y + 1;
        }
        proof {
            assert(grid_lines(self@).take(self@.len() as int) =~= grid_lines(self@));
            lemma_ppm_text_ends_newline(self.spec_width(), self.spec_height(), self@);
        }
        s
    }
}

/// Writing one pixel changes that cell alone: reading the cell back gives
/// the written color, and every other cell keeps its previous value.
pub proof fn lemma_write_then_read(grid: Seq<Seq<Color>>, x: int, y: int, c: Color)
    requires
        0 <= y < grid.len(),
        0 <= x < grid[y].len(),
    ensures
        grid.update(y, grid[y].update(x, c))[y][x] == c,
        forall|y2: int, x2: int|
            0 <= y2 < grid.len() && 0 <= x2 < grid[y2].len() && (y2 != y || x2 != x)
                ==> grid.update(y, grid[y].update(x, c))[y2][x2] == grid[y2][x2],
{
}

} // verus!
