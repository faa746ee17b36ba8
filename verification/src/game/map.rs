use vstd::prelude::*;

use crate::resources::types::map::{collision_mask, lemma_flatten_uniform};

verus! {

pub const MAP_W: usize = 16;

pub const MAP_H: usize = 16;

/// The built-in demo level: 1 is a wall, 0 is floor; row after row.
pub open spec fn demo_grid() -> Seq<Seq<u8>> {
    seq![
        seq![1, 1, 1, 1, 1, 1, 1, 1, 1, 1, 1, 1, 1, 1, 1, 1],
        seq![1, 0, 0, 0, 0, 0, 0, 0, 0, 0, 0, 0, 0, 0, 0, 1],
        seq![1, 0, 0, 0, 0, 0, 0, 0, 0, 0, 0, 0, 0, 0, 0, 1],
        seq![1, 0, 0, 1, 1, 1, 0, 0, 0, 1, 1, 0, 0, 0, 0, 1],
        seq![1, 0, 0, 1, 0, 1, 0, 0, 0, 1, 0, 0, 0, 0, 0, 1],
        seq![1, 0, 0, 1, 0, 1, 0, 0, 0, 1, 0, 0, 1, 1, 0, 1],
        seq![1, 0, 0, 0, 0, 0, 0, 0, 0, 0, 0, 0, 1, 0, 0, 1],
        seq![1, 0, 0, 0, 0, 0, 0, 0, 0, 0, 0, 0, 1, 0, 0, 1],
        seq![1, 0, 0, 0, 0, 0, 1, 1, 1, 0, 0, 0, 0, 0, 0, 1],
        seq![1, 0, 0, 0, 0, 0, 1, 0, 1, 0, 0, 0, 0, 0, 0, 1],
        seq![1, 0, 0, 1, 0, 0, 1, 0, 1, 0, 0, 1, 0, 0, 0, 1],
        seq![1, 0, 0, 1, 0, 0, 0, 0, 0, 0, 0, 1, 0, 0, 0, 1],
        seq![1, 0, 0, 1, 1, 1, 0, 0, 0, 1, 1, 1, 0, 0, 0, 1],
        seq![1, 0, 0, 0, 0, 0, 0, 0, 0, 0, 0, 0, 0, 0, 0, 1],
        seq![1, 0, 0, 0, 0, 0, 0, 0, 0, 0, 0, 0, 0, 0, 0, 1],
        seq![1, 1, 1, 1, 1, 1, 1, 1, 1, 1, 1, 1, 1, 1, 1, 1]
    ]
}

/// Whether cell `(x, y)` of the demo level is a wall, described by the shape
/// of the level: a wall runs all round its edge, and inside stand two small
/// rooms open to the south (three cells wide, three deep, at columns 3 to 5 of
/// rows 3 to 5 and at columns 6 to 8 of rows 8 to 10) and four L-shaped walls
/// of four or five cells.
pub open spec fn demo_wall(x: int, y: int) -> bool {
    ||| x == 0 || y == 0 || x == 15 || y == 15
    ||| (y == 3 && 3 <= x <= 5) || ((x == 3 || x == 5) && 4 <= y <= 5)
    ||| (y == 8 && 6 <= x <= 8) || ((x == 6 || x == 8) && 9 <= y <= 10)
    ||| (y == 3 && x == 10) || (x == 9 && 3 <= y <= 5)
    ||| (y == 5 && x == 13) || (x == 12 && 5 <= y <= 7)
    ||| (x == 3 && 10 <= y <= 12) || (y == 12 && 4 <= x <= 5)
    ||| (x == 11 && 10 <= y <= 12) || (y == 12 && 9 <= x <= 10)
}

/// The demo level is 16 by 16 cells, each 1 (wall) or 0 (floor), and its
/// walls are exactly those that [`demo_wall`] describes.
pub proof fn law_demo_level_layout(x: int, y: int)
    requires
        0 <= x < 16,
        0 <= y < 16,
    ensures
        demo_grid().len() == 16,
        demo_grid()[y].len() == 16,
        demo_grid()[y][x] == 1 <==> demo_wall(x, y),
        demo_grid()[y][x] == 0 <==> !demo_wall(x, y),
{
}

/// The rows of a grid.
pub open spec fn grid_rows(grid: [[u8; MAP_W]; MAP_H]) -> Seq<Seq<u8>> {
    grid@.map_values(|row: [u8; MAP_W]| row@)
}

/// The built-in demo level.
pub fn map_data() -> (grid: [[u8; MAP_W]; MAP_H])
    ensures
        grid_rows(grid) == demo_grid(),
        forall|x: int, y: int|
            0 <= x < 16 && 0 <= y < 16 ==> (#[trigger] grid_rows(grid)[y][x] == 1 <==> demo_wall(
                x,
                y,
            )),
{
    let grid = [
        [1, 1, 1, 1, 1, 1, 1, 1, 1, 1, 1, 1, 1, 1, 1, 1],
        [1, 0, 0, 0, 0, 0, 0, 0, 0, 0, 0, 0, 0, 0, 0, 1],
        [1, 0, 0, 0, 0, 0, 0, 0, 0, 0, 0, 0, 0, 0, 0, 1],
        [1, 0, 0, 1, 1, 1, 0, 0, 0, 1, 1, 0, 0, 0, 0, 1],
        [1, 0, 0, 1, 0, 1, 0, 0, 0, 1, 0, 0, 0, 0, 0, 1],
        [1, 0, 0, 1, 0, 1, 0, 0, 0, 1, 0, 0, 1, 1, 0, 1],
        [1, 0, 0, 0, 0, 0, 0, 0, 0, 0, 0, 0, 1, 0, 0, 1],
        [1, 0, 0, 0, 0, 0, 0, 0, 0, 0, 0, 0, 1, 0, 0, 1],
        [1, 0, 0, 0, 0, 0, 1, 1, 1, 0, 0, 0, 0, 0, 0, 1],
        [1, 0, 0, 0, 0, 0, 1, 0, 1, 0, 0, 0, 0, 0, 0, 1],
        [1, 0, 0, 1, 0, 0, 1, 0, 1, 0, 0, 1, 0, 0, 0, 1],
        [1, 0, 0, 1, 0, 0, 0, 0, 0, 0, 0, 1, 0, 0, 0, 1],
        [1, 0, 0, 1, 1, 1, 0, 0, 0, 1, 1, 1, 0, 0, 0, 1],
        [1, 0, 0, 0, 0, 0, 0, 0, 0, 0, 0, 0, 0, 0, 0, 1],
        [1, 0, 0, 0, 0, 0, 0, 0, 0, 0, 0, 0, 0, 0, 0, 1],
        [1, 1, 1, 1, 1, 1, 1, 1, 1, 1, 1, 1, 1, 1, 1, 1]
    ];
    assert(grid_rows(grid) =~= demo_grid());
    assert forall|x: int, y: int| 0 <= x < 16 && 0 <= y < 16 implies (#[trigger] grid_rows(
        grid,
    )[y][x] == 1 <==> demo_wall(x, y)) by {
        law_demo_level_layout(x, y);
    }
    grid
}

/// The pixels of a grid, row after row: 255 for a wall, 0 for floor.
pub open spec fn grid_pixels(grid: [[u8; MAP_W]; MAP_H]) -> Seq<u8> {
    collision_mask(grid_rows(grid).flatten())
}

/// The pixel image marks exactly the walls: pixel `y * MAP_W + x` is 255
/// where cell `(x, y)` is not floor, and 0 where it is.
pub proof fn law_pixels_mark_walls(grid: [[u8; MAP_W]; MAP_H], x: int, y: int)
    requires
        0 <= x < MAP_W,
        0 <= y < MAP_H,
    ensures
        grid_pixels(grid).len() == MAP_W * MAP_H,
        grid_pixels(grid)[y * MAP_W + x] == (if grid_rows(grid)[y][x] != 0 {
            255u8
        } else {
            0u8
        }),
{
    let rows = grid_rows(grid);
    assert forall|i: int| 0 <= i < rows.len() implies #[trigger] rows[i].len() == MAP_W by {}
    lemma_flatten_uniform(rows, MAP_W as int);
    assert(y * MAP_W + x < MAP_W * MAP_H) by (nonlinear_arith)
        requires
            0 <= x < MAP_W,
            0 <= y < MAP_H,
    ;
}

/// A grid level together with its pixel image, which the renderer uploads.
pub struct GridMap {
    grid: [[u8; MAP_W]; MAP_H],
    cells: Vec<u8>,
}

impl View for GridMap {
    /// The grid.
    type V = [[u8; MAP_W]; MAP_H];

    closed spec fn view(&self) -> [[u8; MAP_W]; MAP_H] {
        self.grid
    }
}

impl GridMap {
    /// The pixel image, as it was built.
    pub closed spec fn cells_view(&self) -> Seq<u8> {
        self.cells@
    }

    #[verifier::type_invariant]
    closed spec fn pixels_match(&self) -> bool {
        self.cells@ == grid_pixels(self.grid)
    }

    pub fn new(grid: [[u8; MAP_W]; MAP_H]) -> (map: Self)
        ensures
            map@ == grid,
            map.cells_view() == grid_pixels(grid),
    {
        let cells = map_pixels(&grid);
        Self { grid, cells }
    }

    pub fn grid(&self) -> (grid: &[[u8; MAP_W]; MAP_H])
        ensures
            *grid == self@,
    {
        &self.grid
    }

    pub fn cells(&self) -> (cells: &[u8])
        ensures
            cells@ == grid_pixels(self@),
    {
        proof {
            use_type_invariant(self);
        }
        self.cells.as_slice()
    }
}

/// Whether the grid cell `(mx, my)` blocks movement: every cell outside the
/// grid does, and so does every cell that is not floor.
pub fn is_wall_at(map: &[[u8; MAP_W]; MAP_H], mx: i32, my: i32) -> (wall: bool)
    ensures
        wall == (mx < 0 || my < 0 || mx >= MAP_W || my >= MAP_H || grid_rows(*map)[my as int][mx as int]
            != 0),
{
    if mx < 0 || my < 0 || mx as usize >= MAP_W || my as usize >= MAP_H {
        return true;
    }
    map[my as usize][mx as usize] != 0
}

/// The pixels of a grid: 255 for a wall, 0 for floor, row after row.
fn map_pixels(map: &[[u8; MAP_W]; MAP_H]) -> (pixels: Vec<u8>)
    ensures
        pixels@ == grid_pixels(*map),
{
    let ghost rows = grid_rows(*map);
    let mut pixels: Vec<u8> = Vec::with_capacity(MAP_W * MAP_H);
    let mut y: usize = 0;
    while y < MAP_H
        invariant
            y <= MAP_H,
            rows == grid_rows(*map),
            pixels@ == collision_mask(rows.take(y as int).flatten()),
        decreases MAP_H - y,
    {
        let row = &map[y];
        assert(row@ == rows[y as int]);
        let ghost start = rows.take(y as int).flatten();
        let mut x: usize = 0;
        while x < MAP_W
            invariant
                x <= MAP_W,
                row@.len() == MAP_W,
                pixels@ == collision_mask(start + row@.take(x as int)),
            decreases MAP_W - x,
        {
            let cell = row[x];
            pixels.push(if cell != 0 { 255 } else { 0 });
            assert(start + row@.take(x + 1) =~= (start + row@.take(x as int)).push(cell));
            assert(collision_mask(start + row@.take(x + 1)) =~= collision_mask(
                start + row@.take(x as int),
            ).push(if cell != 0 { 255u8 } else { 0u8 }));
            x = x + 1;
        }
        assert(row@.take(MAP_W as int) =~= row@);
        assert(rows.take(y + 1) =~= rows.take(y as int).push(rows[y as int]));
        proof {
            rows.take(y as int).lemma_flatten_push(rows[y as int]);
        }
        y = y + 1;
    }
    assert(rows.take(MAP_H as int) =~= rows);
    pixels
}

} // verus!
