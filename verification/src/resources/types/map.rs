use vstd::prelude::*;

verus! {

broadcast use {vstd::string::group_string_axioms, vstd::seq_lib::group_seq_properties};

/// Unicode `White_Space`: the characters that `str::trim_end` strips.
pub open spec fn is_white_space(c: char) -> bool {
    let u = c as u32;
    ||| 9 <= u <= 13
    ||| u == 32
    ||| u == 0x85
    ||| u == 0xA0
    ||| u == 0x1680
    ||| 0x2000 <= u <= 0x200A
    ||| u == 0x2028
    ||| u == 0x2029
    ||| u == 0x202F
    ||| u == 0x205F
    ||| u == 0x3000
}

/// `s` without its trailing white space.
pub open spec fn trim_end(s: Seq<char>) -> Seq<char>
    decreases s.len(),
{
    if s.len() > 0 && is_white_space(s.last()) {
        trim_end(s.drop_last())
    } else {
        s
    }
}

/// The pieces of `text` between its line feeds, in order. There is always at
/// least one piece; the last is what follows the last line feed.
pub open spec fn split_lines(text: Seq<char>) -> Seq<Seq<char>>
    decreases text.len(),
{
    if text.len() == 0 {
        seq![Seq::<char>::empty()]
    } else {
        let pieces = split_lines(text.drop_last());
        if text.last() == '\n' {
            pieces.push(Seq::<char>::empty())
        } else {
            pieces.update(pieces.len() - 1, pieces.last().push(text.last()))
        }
    }
}

/// The code of one map character: `.`, `0` and space are floor (0); `#`, `1`
/// and every other character are wall (1).
pub open spec fn cell_code(c: char) -> u8 {
    if c == '#' || c == '1' {
        1
    } else if c == '.' || c == '0' || c == ' ' {
        0
    } else {
        1
    }
}

/// One map row read cell by cell.
pub open spec fn row_cells(line: Seq<char>) -> Seq<u8> {
    line.map_values(|c: char| cell_code(c))
}

/// A trimmed line that holds a row: it is not blank and not a `;` comment.
pub open spec fn is_row_line(line: Seq<char>) -> bool {
    line.len() > 0 && line[0] != ';'
}

/// The rows that the lines `lines` hold, in order.
pub open spec fn map_rows(lines: Seq<Seq<char>>) -> Seq<Seq<u8>>
    decreases lines.len(),
{
    if lines.len() == 0 {
        Seq::empty()
    } else {
        let rows = map_rows(lines.drop_last());
        let line = trim_end(lines.last());
        if is_row_line(line) {
            rows.push(row_cells(line))
        } else {
            rows
        }
    }
}

/// The collision mask of map cells: 255 for a wall, 0 for floor.
pub open spec fn collision_mask(cells: Seq<u8>) -> Seq<u8> {
    cells.map_values(|c: u8| if c != 0 { 255u8 } else { 0u8 })
}

/// Whether row `i` is the first whose width differs from that of row 0.
pub open spec fn is_first_mismatch(rows: Seq<Seq<u8>>, i: int) -> bool {
    &&& 0 <= i < rows.len()
    &&& rows[i].len() != rows[0].len()
    &&& forall|j: int| 0 <= j < i ==> #[trigger] rows[j].len() == rows[0].len()
}

/// Why a map text was refused.
#[derive(Debug, Clone, Copy, PartialEq, Eq, Structural)]
pub enum MapError {
    /// No line holds a row.
    NoRows,
    /// The first row is empty.
    EmptyRows,
    /// Row `index` (counting rows only) has `width` cells where row 0 has `expected`.
    RowWidth { index: usize, width: usize, expected: u32 },
    /// A row, or the grid, has more cells than a `u32` counts.
    TooLarge,
}

/// What a map text reads as: its width, height and cells row after row, or why
/// it is refused.
pub open spec fn map_parse(text: Seq<char>) -> Result<(u32, u32, Seq<u8>), MapError> {
    let rows = map_rows(split_lines(text));
    if rows.len() == 0 {
        Err(MapError::NoRows)
    } else if rows[0].len() == 0 {
        Err(MapError::EmptyRows)
    } else if exists|i: int| is_first_mismatch(rows, i) {
        let i = choose|i: int| is_first_mismatch(rows, i);
        Err(
            MapError::RowWidth {
                index: i as usize,
                width: rows[i].len() as usize,
                expected: rows[0].len() as u32,
            },
        )
    } else {
        Ok((rows[0].len() as u32, rows.len() as u32, rows.flatten()))
    }
}

/// Whether the sizes of the map in `text` fit in `u32`: every row has at most
/// `u32::MAX` cells, and a text that reads as a grid has at most `u32::MAX`
/// cells in all.
pub open spec fn map_fits(text: Seq<char>) -> bool {
    let rows = map_rows(split_lines(text));
    &&& forall|i: int| 0 <= i < rows.len() ==> #[trigger] rows[i].len() <= u32::MAX
    &&& (map_parse(text) is Ok ==> rows.flatten().len() <= u32::MAX)
}

/// A grid map: `width * height` cells, row after row, and the collision mask
/// that the renderer samples.
#[derive(Debug, Clone)]
pub struct MapAsset {
    pub width: u32,
    pub height: u32,
    cells: Vec<u8>,
    collision: Vec<u8>,
}

impl View for MapAsset {
    /// Width, height, and the cells row after row.
    type V = (u32, u32, Seq<u8>);

    closed spec fn view(&self) -> (u32, u32, Seq<u8>) {
        (self.width, self.height, self.cells@)
    }
}

impl MapAsset {

    /// The collision mask as it was built.
    pub closed spec fn collision_view(&self) -> Seq<u8> {
        self.collision@
    }

    /// The cells fill the grid, the grid's indices fit in `u32`, and the
    /// collision mask agrees with the cells.
    pub open spec fn wf(&self) -> bool {
        &&& self@.2.len() == self@.0 * self@.1
        &&& self@.0 * self@.1 <= u32::MAX
        &&& self.collision_view() == collision_mask(self@.2)
    }

    /// The cell at column `x` of row `y`.
    pub open spec fn spec_cell(&self, x: int, y: int) -> u8 {
        self@.2[y * self@.0 + x]
    }

    /// Reads a map text: lines are split at line feeds and trimmed at their
    /// end; blank lines and lines that start with `;` are skipped; every other
    /// line is a row. All rows must have the width of the first. A map whose
    /// sizes do not fit in `u32` is refused as too large.
    pub fn parse(text: &str) -> (result: Result<MapAsset, MapError>)
        ensures
            !map_fits(text@) ==> result == Err::<MapAsset, MapError>(MapError::TooLarge),
            map_fits(text@) ==> match map_parse(text@) {
                Ok(grid) => (result matches Ok(m) && m@ == grid && m.wf()),
                Err(e) => result == Err::<MapAsset, MapError>(e),
            },
    {
        let rows = collect_rows(text);
        let ghost rs = rows.deep_view();
        proof {
            lemma_row_views(&rows);
        }
        let mut k: usize = 0;
        while k < rows.len()
            invariant
                k <= rows@.len(),
                rs == rows.deep_view(),
                rs == map_rows(split_lines(text@)),
                rs.len() == rows@.len(),
                forall|i: int| 0 <= i < rows@.len() ==> #[trigger] rs[i] == rows@[i]@,
                forall|i: int| 0 <= i < k ==> #[trigger] rs[i].len() <= u32::MAX,
            decreases rows@.len() - k,
        {
            if rows[k].len() > u32::MAX as usize {
                assert(rs[k as int].len() > u32::MAX);
                return Err(MapError::TooLarge);
            }
            k = k + 1;
        }
        if rows.len() == 0 {
            return Err(MapError::NoRows);
        }
        let width = rows[0].len() as u32;
        if width == 0 {
            return Err(MapError::EmptyRows);
        }
        match first_width_mismatch(&rows, rows[0].len()) {
            Some(index) => {
                proof {
                    lemma_first_mismatch_unique(rs, index as int);
                    assert(rs[index as int] == rows@[index as int]@);
                }
                Err(MapError::RowWidth { index, width: rows[index].len(), expected: width })
            },
            None => {
                proof {
                    lemma_flatten_uniform(rs, width as int);
                    assert(!exists|i: int| is_first_mismatch(rs, i));
                }
                if rows.len() > (u32::MAX / width) as usize {
                    proof {
                        lemma_over_quotient(rows@.len() as int, width as int);
                    }
                    return Err(MapError::TooLarge);
                }
                proof {
                    lemma_within_quotient(rows@.len() as int, width as int);
                }
                let height = rows.len() as u32;
                let (cells, collision) = flatten_rows(&rows);
                proof {
                    assert(width * height == rows@.len() * width) by (nonlinear_arith)
                        requires
                            height == rows@.len(),
                    ;
                }
                Ok(MapAsset { width, height, cells, collision })
            },
        }
    }

    /// The cell at column `x` of row `y`: cell `y * width + x` of the grid,
    /// read row after row.
    pub fn cell(&self, x: u32, y: u32) -> (cell: u8)
        requires
            self.wf(),
            (y as int) * (self@.0 as int) + (x as int) < self@.2.len(),
        ensures
            cell == self.spec_cell(x as int, y as int),
    {
        proof {
            assert(0 <= (y as int) * (self.width as int)) by (nonlinear_arith);
        }
        self.cells[(y * self.width + x) as usize]
    }

    /// The number of cells in a row.
    pub fn width(&self) -> (width: u32)
        ensures
            width == self@.0,
    {
        self.width
    }

    /// The number of rows.
    pub fn height(&self) -> (height: u32)
        ensures
            height == self@.1,
    {
        self.height
    }

    /// Whether the grid cell `(mx, my)` blocks movement: every cell outside
    /// the grid does, and so does every cell that is not floor.
    pub fn is_wall_at(&self, mx: i32, my: i32) -> (wall: bool)
        requires
            self.wf(),
        ensures
            wall == (mx < 0 || my < 0 || mx >= self@.0 || my >= self@.1
                || self.spec_cell(mx as int, my as int) != 0),
    {
        if mx < 0 || my < 0 {
            return true;
        }
        let mx = mx as u32;
        let my = my as u32;
        if mx >= self.width || my >= self.height {
            return true;
        }
        proof {
            lemma_grid_index(mx as int, my as int, self.width as int, self.height as int);
        }
        self.cell(mx, my) != 0
    }

    /// The collision mask, one byte per cell: 255 for a wall, 0 for floor.
    pub fn cells_r8(&self) -> (mask: Vec<u8>)
        ensures
            mask@ == self.collision_view(),
            self.wf() ==> mask@ == collision_mask(self@.2),
    {
        let mut mask: Vec<u8> = Vec::with_capacity(self.collision.len());
        let mut i: usize = 0;
        while i < self.collision.len()
            invariant
                i <= self.collision@.len(),
                mask@ == self.collision@.take(i as int),
            decreases self.collision@.len() - i,
        {
            mask.push(self.collision[i]);
            assert(self.collision@.take(i + 1) =~= self.collision@.take(i as int).push(
                self.collision@[i as int],
            ));
            i = i + 1;
        }
        assert(self.collision@.take(i as int) =~= self.collision@);
        mask
    }
}

/// The rows that the lines of `text` hold.
fn collect_rows(text: &str) -> (rows: Vec<Vec<u8>>)
    ensures
        rows.deep_view() == map_rows(split_lines(text@)),
        rows.deep_view().flatten().len() <= text@.len(),
        rows@.len() <= rows.deep_view().flatten().len(),
{
    let mut rows: Vec<Vec<u8>> = Vec::new();
    let mut line: Vec<char> = Vec::new();
    let ghost mut done: Seq<Seq<char>> = Seq::empty();
    let ghost mut total: nat = 0;
    for c in it: text.chars()
        invariant
            it.seq() == text@,
            split_lines(it.seq().take(it.index() as int)) == done.push(line@),
            rows.deep_view() == map_rows(done),
            total == rows.deep_view().flatten().len(),
            rows@.len() <= total,
            total + line@.len() <= it.index(),
    {
        let ghost prefix = it.seq().take(it.index() as int);
        assert(it.seq().take(it.index() + 1) =~= prefix.push(c));
        assert(prefix.push(c).drop_last() =~= prefix);
        if c == '\n' {
            let ghost before = rows.deep_view();
            let ghost piece = line@;
            push_row_if_kept(&mut rows, &mut line);
            proof {
                lemma_trim_end_len(piece);
                if rows.deep_view() != before {
                    lemma_row_cells_len(trim_end(piece));
                    before.lemma_flatten_push(row_cells(trim_end(piece)));
                }
                assert(done.push(piece).drop_last() =~= done);
                done = done.push(piece);
                total = rows.deep_view().flatten().len();
            }
            line = Vec::new();
        } else {
            let ghost piece = line@;
            line.push(c);
            assert(done.push(piece).update(done.len() as int, piece.push(c)) =~= done.push(line@));
        }
    }
    let ghost before = rows.deep_view();
    let ghost piece = line@;
    push_row_if_kept(&mut rows, &mut line);
    proof {
        lemma_trim_end_len(piece);
        if rows.deep_view() != before {
            lemma_row_cells_len(trim_end(piece));
            before.lemma_flatten_push(row_cells(trim_end(piece)));
        }
        assert(text@.take(text@.len() as int) =~= text@);
        assert(done.push(piece).drop_last() =~= done);
    }
    rows
}

/// The first row whose width is not `width`, if there is one.
fn first_width_mismatch(rows: &Vec<Vec<u8>>, width: usize) -> (found: Option<usize>)
    requires
        rows@.len() > 0,
        rows@[0]@.len() == width,
    ensures
        match found {
            Some(i) => is_first_mismatch(rows.deep_view(), i as int) && i < rows@.len(),
            None => forall|i: int|
                0 <= i < rows@.len() ==> #[trigger] rows.deep_view()[i].len() == width,
        },
{
    proof {
        lemma_row_views(rows);
    }
    let mut index: usize = 0;
    while index < rows.len()
        invariant
            index <= rows@.len(),
            rows@.len() > 0,
            rows@[0]@.len() == width,
            rows.deep_view().len() == rows@.len(),
            forall|i: int| 0 <= i < rows@.len() ==> #[trigger] rows.deep_view()[i] == rows@[i]@,
            forall|j: int| 0 <= j < index ==> #[trigger] rows.deep_view()[j].len() == width,
        decreases rows@.len() - index,
    {
        if rows[index].len() != width {
            return Some(index);
        }
        index = index + 1;
    }
    None
}

/// The cells of `rows`, row after row, and their collision mask.
fn flatten_rows(rows: &Vec<Vec<u8>>) -> (out: (Vec<u8>, Vec<u8>))
    ensures
        out.0@ == rows.deep_view().flatten(),
        out.1@ == collision_mask(out.0@),
{
    let ghost rs = rows.deep_view();
    proof {
        lemma_row_views(rows);
    }
    let mut cells: Vec<u8> = Vec::new();
    let mut collision: Vec<u8> = Vec::new();
    let mut y: usize = 0;
    while y < rows.len()
        invariant
            rs == rows.deep_view(),
            rs.len() == rows@.len(),
            forall|i: int| 0 <= i < rows@.len() ==> #[trigger] rs[i] == rows@[i]@,
            y <= rows@.len(),
            cells@ == rs.take(y as int).flatten(),
            collision@ == collision_mask(cells@),
        decreases rows@.len() - y,
    {
        let row = &rows[y];
        assert(row@ == rs[y as int]);
        let ghost start = cells@;
        let mut x: usize = 0;
        while x < row.len()
            invariant
                x <= row@.len(),
                cells@ == start + row@.take(x as int),
                collision@ == collision_mask(cells@),
            decreases row@.len() - x,
        {
            let cell = row[x];
            cells.push(cell);
            collision.push(if cell != 0 { 255 } else { 0 });
            assert(start + row@.take(x + 1) =~= (start + row@.take(x as int)).push(cell));
            assert(collision_mask(cells@) =~= collision_mask(cells@.drop_last()).push(
                if cell != 0 { 255u8 } else { 0u8 },
            ));
            x = x + 1;
        }
        assert(row@.take(row@.len() as int) =~= row@);
        assert(rs.take(y + 1) =~= rs.take(y as int).push(rs[y as int]));
        proof {
            rs.take(y as int).lemma_flatten_push(rs[y as int]);
        }
        y = y + 1;
    }
    assert(rs.take(rs.len() as int) =~= rs);
    (cells, collision)
}

/// A parsed map holds, at column `x` of row `y`, the code of character `x` of
/// the `y`-th line that holds a row, once that line is trimmed at its end.
pub proof fn law_parsed_cell(text: Seq<char>, x: int, y: int)
    requires
        map_fits(text),
        map_parse(text) is Ok,
        0 <= x < map_parse(text)->Ok_0.0,
        0 <= y < map_parse(text)->Ok_0.1,
    ensures
        map_parse(text)->Ok_0.2[y * map_parse(text)->Ok_0.0 + x] == map_rows(split_lines(text))[y][x],
        map_rows(split_lines(text))[y].len() == map_parse(text)->Ok_0.0,
{
    let rows = map_rows(split_lines(text));
    lemma_rows_fit(text);
    lemma_row_len_le_flatten(rows, 0);
    assert(!exists|i: int| is_first_mismatch(rows, i));
    assert forall|i: int| 0 <= i < rows.len() implies #[trigger] rows[i].len() == rows[0].len() by {
        if rows[i].len() != rows[0].len() {
            lemma_mismatch_has_first(rows, i);
        }
    }
    lemma_flatten_uniform(rows, rows[0].len() as int);
}

/// Every row is read from a line that holds one: the line, trimmed at its
/// end, is not blank, is not a `;` comment, and gives one cell per character.
pub proof fn law_rows_come_from_row_lines(lines: Seq<Seq<char>>, y: int)
    requires
        0 <= y < map_rows(lines).len(),
    ensures
        exists|k: int|
            0 <= k < lines.len() && is_row_line(trim_end(#[trigger] lines[k]))
                && map_rows(lines)[y] == row_cells(trim_end(lines[k])),
    decreases lines.len(),
{
    let rest = map_rows(lines.drop_last());
    if y < rest.len() {
        law_rows_come_from_row_lines(lines.drop_last(), y);
        let k = choose|k: int|
            0 <= k < lines.drop_last().len() && is_row_line(trim_end(#[trigger] lines.drop_last()[k]))
                && rest[y] == row_cells(trim_end(lines.drop_last()[k]));
        assert(lines[k] == lines.drop_last()[k]);
    } else {
        assert(lines[lines.len() - 1] == lines.last());
    }
}

/// Every cell is 0 (floor) or 1 (wall).
pub proof fn law_cells_are_binary(line: Seq<char>, x: int)
    requires
        0 <= x < line.len(),
    ensures
        row_cells(line)[x] == 0 || row_cells(line)[x] == 1,
        row_cells(line)[x] == 0 <==> (line[x] == '.' || line[x] == '0' || line[x] == ' '),
{
}

/// The collision mask marks exactly the walls: 255 where the cell is not 0,
/// and 0 where it is.
pub proof fn law_collision_marks_walls(cells: Seq<u8>, i: int)
    requires
        0 <= i < cells.len(),
    ensures
        collision_mask(cells).len() == cells.len(),
        collision_mask(cells)[i] == 255 <==> cells[i] != 0,
        collision_mask(cells)[i] == 0 <==> cells[i] == 0,
{
}

/// The rows of a text hold no more cells than the text has characters, and
/// there are no more rows than cells.
proof fn lemma_rows_fit(text: Seq<char>)
    ensures
        map_rows(split_lines(text)).flatten().len() <= text.len(),
        map_rows(split_lines(text)).len() <= map_rows(split_lines(text)).flatten().len(),
{
    lemma_done_rows_fit(text);
    let pieces = split_lines(text);
    let done = map_rows(pieces.drop_last());
    assert(pieces.drop_last().push(pieces.last()) =~= pieces);
    lemma_trim_end_len(pieces.last());
    if is_row_line(trim_end(pieces.last())) {
        done.lemma_flatten_push(row_cells(trim_end(pieces.last())));
    }
}

/// While a text is read, the rows of its finished lines and the line being
/// read together hold no more characters than the text.
proof fn lemma_done_rows_fit(text: Seq<char>)
    ensures
        split_lines(text).len() >= 1,
        map_rows(split_lines(text).drop_last()).flatten().len() + split_lines(text).last().len()
            <= text.len(),
        map_rows(split_lines(text).drop_last()).len() <= map_rows(
            split_lines(text).drop_last(),
        ).flatten().len(),
    decreases text.len(),
{
    if text.len() == 0 {
        assert(split_lines(text).drop_last() =~= Seq::<Seq<char>>::empty());
    } else {
        lemma_done_rows_fit(text.drop_last());
        let pieces = split_lines(text.drop_last());
        let done = map_rows(pieces.drop_last());
        if text.last() == '\n' {
            assert(pieces.push(Seq::<char>::empty()).drop_last() =~= pieces);
            assert(pieces.drop_last().push(pieces.last()) =~= pieces);
            lemma_trim_end_len(pieces.last());
            if is_row_line(trim_end(pieces.last())) {
                done.lemma_flatten_push(row_cells(trim_end(pieces.last())));
            }
        } else {
            let last = pieces.len() - 1;
            assert(pieces.update(last, pieces.last().push(text.last())).drop_last()
                =~= pieces.drop_last());
        }
    }
}

/// Movement and rendering agree on walls: inside the grid, a cell blocks
/// movement exactly where the collision mask uploaded for rendering is 255.
pub proof fn law_wall_iff_mask(map: MapAsset, x: int, y: int)
    requires
        map.wf(),
        0 <= x < map@.0,
        0 <= y < map@.1,
    ensures
        map.spec_cell(x, y) != 0 <==> map.collision_view()[y * map@.0 + x] == 255,
{
    lemma_grid_index(x, y, map@.0 as int, map@.1 as int);
}

/// A width mismatch at `i` means there is a first one.
proof fn lemma_mismatch_has_first(rows: Seq<Seq<u8>>, i: int)
    requires
        0 <= i < rows.len(),
        rows[i].len() != rows[0].len(),
    ensures
        exists|k: int| is_first_mismatch(rows, k),
    decreases i,
{
    if forall|j: int| 0 <= j < i ==> #[trigger] rows[j].len() == rows[0].len() {
        assert(is_first_mismatch(rows, i));
    } else {
        let j = choose|j: int| 0 <= j < i && #[trigger] rows[j].len() != rows[0].len();
        lemma_mismatch_has_first(rows, j);
    }
}

/// Whether `c` is white space, as `char::is_whitespace` decides.
fn white_space(c: char) -> (ws: bool)
    ensures
        ws == is_white_space(c),
{
    let u = c as u32;
    (9 <= u && u <= 13) || u == 32 || u == 0x85 || u == 0xA0 || u == 0x1680 || (0x2000 <= u && u
        <= 0x200A) || u == 0x2028 || u == 0x2029 || u == 0x202F || u == 0x205F || u == 0x3000
}

/// Reads one map row: one cell per character.
fn parse_row(line: &[char]) -> (row: Vec<u8>)
    ensures
        row@ == row_cells(line@),
{
    let mut row: Vec<u8> = Vec::with_capacity(line.len());
    let mut i: usize = 0;
    while i < line.len()
        invariant
            i <= line@.len(),
            row@ == row_cells(line@.take(i as int)),
        decreases line@.len() - i,
    {
        let ch = line[i];
        let cell: u8 = match ch {
            '#' | '1' => 1,
            '.' | '0' | ' ' => 0,
            _ => 1,
        };
        row.push(cell);
        assert(row_cells(line@.take(i + 1)) =~= row_cells(line@.take(i as int)).push(cell));
        i = i + 1;
    }
    assert(line@.take(i as int) =~= line@);
    row
}

/// Cuts `line` at the end of its last character that is not white space, and
/// pushes the row that it holds, if it holds one.
fn push_row_if_kept(rows: &mut Vec<Vec<u8>>, line: &mut Vec<char>)
    ensures
        final(line)@ == trim_end(old(line)@),
        final(rows).deep_view() == if is_row_line(trim_end(old(line)@)) {
            old(rows).deep_view().push(row_cells(trim_end(old(line)@)))
        } else {
            old(rows).deep_view()
        },
{
    let mut end = line.len();
    while end > 0 && white_space(line[end - 1])
        invariant
            end <= line@.len(),
            trim_end(line@) == trim_end(line@.take(end as int)),
        decreases end,
    {
        assert(line@.take(end as int).drop_last() =~= line@.take(end - 1));
        end = end - 1;
    }
    line.truncate(end);
    if line.len() > 0 && line[0] != ';' {
        let row = parse_row(line.as_slice());
        let ghost before = rows.deep_view();
        let ghost cells = row@;
        assert(row.deep_view() =~= cells);
        rows.push(row);
        assert(rows.deep_view() =~= before.push(cells));
    }
}

proof fn lemma_row_views(rows: &Vec<Vec<u8>>)
    ensures
        rows.deep_view().len() == rows@.len(),
        forall|i: int| 0 <= i < rows@.len() ==> #[trigger] rows.deep_view()[i] == rows@[i]@,
{
    assert forall|i: int| 0 <= i < rows@.len() implies #[trigger] rows.deep_view()[i]
        == rows@[i]@ by {
        assert(rows.deep_view()[i] =~= rows@[i]@);
    }
}

proof fn lemma_trim_end_len(s: Seq<char>)
    ensures
        trim_end(s).len() <= s.len(),
    decreases s.len(),
{
    if s.len() > 0 && is_white_space(s.last()) {
        lemma_trim_end_len(s.drop_last());
    }
}

proof fn lemma_row_cells_len(s: Seq<char>)
    ensures
        row_cells(s).len() == s.len(),
{
}

/// Every row is no longer than all rows together.
proof fn lemma_row_len_le_flatten(rows: Seq<Seq<u8>>, i: int)
    requires
        0 <= i < rows.len(),
    ensures
        rows[i].len() <= rows.flatten().len(),
    decreases rows.len(),
{
    if i > 0 {
        lemma_row_len_le_flatten(rows.drop_first(), i - 1);
    }
}

proof fn lemma_first_mismatch_unique(rows: Seq<Seq<u8>>, i: int)
    requires
        is_first_mismatch(rows, i),
    ensures
        (choose|k: int| is_first_mismatch(rows, k)) == i,
{
    let k = choose|k: int| is_first_mismatch(rows, k);
    assert(is_first_mismatch(rows, k));
    if k < i {
        assert(rows[k].len() == rows[0].len());
    } else if i < k {
        assert(rows[i].len() == rows[0].len());
    }
}

/// A count above `m / w` of rows of `w` cells holds more than `m` cells.
proof fn lemma_over_quotient(n: int, w: int)
    requires
        0 < w,
        n > (u32::MAX as int) / w,
    ensures
        n * w > u32::MAX,
{
    assert(n * w > u32::MAX) by (nonlinear_arith)
        requires
            0 < w,
            n >= (u32::MAX as int) / w + 1,
    {
        assert(((u32::MAX as int) / w + 1) * w > u32::MAX) by (nonlinear_arith)
            requires
                0 < w,
        ;
        assert(n * w >= ((u32::MAX as int) / w + 1) * w) by (nonlinear_arith)
            requires
                0 < w,
                n >= (u32::MAX as int) / w + 1,
        ;
    };
}

/// A count of at most `m / w` rows of `w` cells holds at most `m` cells.
proof fn lemma_within_quotient(n: int, w: int)
    requires
        0 < w,
        0 <= n <= (u32::MAX as int) / w,
    ensures
        n * w <= u32::MAX,
{
    assert(n * w <= u32::MAX) by (nonlinear_arith)
        requires
            0 < w,
            0 <= n <= (u32::MAX as int) / w,
    {
        assert(n * w <= ((u32::MAX as int) / w) * w) by (nonlinear_arith)
            requires
                0 < w,
                0 <= n <= (u32::MAX as int) / w,
        ;
        assert(((u32::MAX as int) / w) * w <= u32::MAX) by (nonlinear_arith)
            requires
                0 < w,
        ;
    };
}

proof fn lemma_grid_index(x: int, y: int, w: int, h: int)
    requires
        0 <= x < w,
        0 <= y < h,
    ensures
        0 <= y * w + x < w * h,
{
    assert(y * w + x < w * h) by (nonlinear_arith)
        requires
            0 <= x < w,
            0 <= y < h,
    ;
    assert(0 <= y * w) by (nonlinear_arith)
        requires
            0 <= y,
            0 <= w,
    ;
}

/// Rows of one width, flattened: cell `x` of row `y` stands at `y * w + x`.
pub proof fn lemma_flatten_uniform(rows: Seq<Seq<u8>>, w: int)
    requires
        forall|i: int| 0 <= i < rows.len() ==> #[trigger] rows[i].len() == w,
    ensures
        rows.flatten().len() == rows.len() * w,
        forall|y: int, x: int|
            0 <= y < rows.len() && 0 <= x < w ==> rows.flatten()[y * w + x] == #[trigger] rows[y][x],
    decreases rows.len(),
{
    if rows.len() > 0 {
        let rest = rows.drop_first();
        lemma_flatten_uniform(rest, w);
        assert(rows.flatten() == rows[0] + rest.flatten());
        assert(rows.len() * w == w + rest.len() * w) by (nonlinear_arith)
            requires
                rows.len() == rest.len() + 1,
        ;
        assert forall|y: int, x: int| 0 <= y < rows.len() && 0 <= x < w implies rows.flatten()[y
            * w + x] == #[trigger] rows[y][x] by {
            if y == 0 {
                assert(y * w + x == x) by (nonlinear_arith)
                    requires
                        y == 0,
                ;
            } else {
                assert(y * w + x - w == (y - 1) * w + x) by (nonlinear_arith);
                assert(0 <= (y - 1) * w) by (nonlinear_arith)
                    requires
                        y >= 1,
                        w >= 0,
                ;
                assert((y - 1) * w + x < rest.len() * w) by (nonlinear_arith)
                    requires
                        0 <= y - 1 < rest.len(),
                        0 <= x < w,
                ;
                assert(rows[y] == rest[y - 1]);
                assert(rest.flatten()[(y - 1) * w + x] == rest[y - 1][x]);
            }
        }
    }
}

} // verus!
