use vstd::prelude::*;

verus! {

/// Side of one gem sprite, in world units; also the distance between the
/// centres of neighbouring cells.
pub const GEM_LENGTH: u32 = 50;

/// Number of cells along each side of the board that the camera frames.
pub const BOARD_SIZE: u32 = 10;

/// The texture that a gem sprite is drawn with.
#[derive(Clone, Copy, Debug, PartialEq, Eq, Structural, Hash)]
pub enum GemColor {
    Blue,
    Green,
    Red,
}

/// Colours cycle through the gem types: type 0 is blue, 1 green, 2 red,
/// 3 blue again, and so on.
pub open spec fn color_of(typ: int) -> GemColor {
    if typ % 3 == 0 {
        GemColor::Blue
    } else if typ % 3 == 1 {
        GemColor::Green
    } else {
        GemColor::Red
    }
}

/// World position of the centre of cell (x, y): x grows to the right,
/// y grows downward on the board and so upward goes negative in the world.
pub open spec fn cell_translation(x: int, y: int) -> (int, int) {
    (x * GEM_LENGTH, -(y * GEM_LENGTH))
}

/// Offset from cell (0, 0) to the centre of a square board of `size` cells
/// along each axis.
pub open spec fn center_offset(size: int) -> int {
    size * GEM_LENGTH / 2 - GEM_LENGTH / 2
}

/// The texture for a gem of the given type.
pub fn gem_color(typ: u32) -> (r: GemColor)
    ensures
        r == color_of(typ as int),
{
    let m = typ % 3;
    if m == 0 {
        GemColor::Blue
    } else if m == 1 {
        GemColor::Green
    } else {
        GemColor::Red
    }
}

/// World position of the sprite of cell (x, y).
pub fn gem_translation(x: u32, y: u32) -> (r: (i64, i64))
    ensures
        (r.0 as int, r.1 as int) == cell_translation(x as int, y as int),
{
    let tx: i64 = x as i64 * GEM_LENGTH as i64;
    let ty: i64 = -(y as i64 * GEM_LENGTH as i64);
    (tx, ty)
}

/// Where the camera stands so that a square board of `size` cells is
/// centred on screen: right of cell (0, 0) by the centre offset, and below
/// it by the same amount.
pub fn camera_translation(size: u32) -> (r: (i64, i64))
    ensures
        r.0 as int == center_offset(size as int),
        r.1 as int == -center_offset(size as int),
{
    let half_board: i64 = size as i64 * GEM_LENGTH as i64 / 2;
    let off: i64 = half_board - GEM_LENGTH as i64 / 2;
    (off, -off)
}

/// One cell of a generated board: its grid position and its gem type.
#[derive(Clone, Copy, Debug, PartialEq, Eq, Structural)]
pub struct Cell {
    pub x: u32,
    pub y: u32,
    pub typ: u32,
}

/// What is needed to spawn the sprite of one cell.
#[derive(Clone, Copy, Debug, PartialEq, Eq, Structural)]
pub struct GemPlacement {
    pub x: u32,
    pub y: u32,
    pub tx: i64,
    pub ty: i64,
    pub color: GemColor,
}

/// The sprite that cell `c` is drawn as.
pub open spec fn placement_of(c: Cell) -> GemPlacement {
    GemPlacement {
        x: c.x,
        y: c.y,
        tx: cell_translation(c.x as int, c.y as int).0 as i64,
        ty: cell_translation(c.x as int, c.y as int).1 as i64,
        color: color_of(c.typ as int),
    }
}

/// The sprite for one cell.
pub fn place_gem(c: Cell) -> (r: GemPlacement)
    ensures
        r == placement_of(c),
        r.tx as int == cell_translation(c.x as int, c.y as int).0,
        r.ty as int == cell_translation(c.x as int, c.y as int).1,
{
    let (tx, ty) = gem_translation(c.x, c.y);
    GemPlacement { x: c.x, y: c.y, tx, ty, color: gem_color(c.typ) }
}

/// The sprites for every cell of a board, one per cell, in the order given.
pub fn place_gems(cells: &Vec<Cell>) -> (r: Vec<GemPlacement>)
    ensures
        r@ == cells@.map_values(|c: Cell| placement_of(c)),
{
    let mut out: Vec<GemPlacement> = Vec::new();
    let mut i: usize = 0;
    while i < cells.len()
        invariant
            i <= cells@.len(),
            out@ == cells@.subrange(0, i as int).map_values(|c: Cell| placement_of(c)),
        decreases cells@.len() - i,
    {
        out.push(place_gem(cells[i]));
        i = i + 1;
        assert(cells@.subrange(0, i as int) == cells@.subrange(0, i - 1).push(cells@[i - 1]));
    }
    assert(cells@.subrange(0, cells@.len() as int) == cells@);
    out
}

} // verus!
