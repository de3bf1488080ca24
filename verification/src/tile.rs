use vstd::prelude::*;

verus! {

/// Which part of a tile sprite sheet a tile is drawn with, by the tiles it connects to.
#[derive(Copy, Clone)]
pub enum TileImagePos {
    Solid,
    Vertical,
    Horizontal,
    Standalone,
    UpLeft,
    UpRight,
    DownLeft,
    DownRight,
    UpFlat,
    DownFlat,
    LeftFlat,
    RightFlat,
    UpEnd,
    DownEnd,
    LeftEnd,
    RightEnd,
}

impl TileImagePos {
    pub open spec fn spec_tex_cell(self) -> (u8, u8) {
        match self {
            TileImagePos::Solid => (1, 2),
            TileImagePos::Vertical => (0, 2),
            TileImagePos::Horizontal => (1, 3),
            TileImagePos::Standalone => (1, 2),
            TileImagePos::UpLeft => (0, 0),
            TileImagePos::UpRight => (1, 0),
            TileImagePos::DownLeft => (0, 1),
            TileImagePos::DownRight => (1, 1),
            TileImagePos::UpFlat => (3, 0),
            TileImagePos::DownFlat => (3, 1),
            TileImagePos::LeftFlat => (3, 2),
            TileImagePos::RightFlat => (3, 3),
            TileImagePos::UpEnd => (2, 0),
            TileImagePos::DownEnd => (2, 1),
            TileImagePos::LeftEnd => (2, 2),
            TileImagePos::RightEnd => (2, 3),
        }
    }

    /// The column and row of the sprite cell, in a sheet of 4 x 4 cells.
    pub fn get_tex_cell(self) -> (r: (u8, u8))
        ensures
            r == self.spec_tex_cell(),
            r.0 < 4 && r.1 < 4,
    {
        match self {
            TileImagePos::Solid => (1, 2),
            TileImagePos::Vertical => (0, 2),
            TileImagePos::Horizontal => (1, 3),
            TileImagePos::Standalone => (1, 2),
            TileImagePos::UpLeft => (0, 0),
            TileImagePos::UpRight => (1, 0),
            TileImagePos::DownLeft => (0, 1),
            TileImagePos::DownRight => (1, 1),
            TileImagePos::UpFlat => (3, 0),
            TileImagePos::DownFlat => (3, 1),
            TileImagePos::LeftFlat => (3, 2),
            TileImagePos::RightFlat => (3, 3),
            TileImagePos::UpEnd => (2, 0),
            TileImagePos::DownEnd => (2, 1),
            TileImagePos::LeftEnd => (2, 2),
            TileImagePos::RightEnd => (2, 3),
        }
    }
}

/// For a corner sprite, whether its corner is on the right and whether it is at the bottom.
pub open spec fn corner(p: TileImagePos) -> Option<(bool, bool)> {
    match p {
        TileImagePos::UpLeft => Some((false, false)),
        TileImagePos::UpRight => Some((true, false)),
        TileImagePos::DownLeft => Some((false, true)),
        TileImagePos::DownRight => Some((true, true)),
        _ => None,
    }
}

/// For a flat-edge sprite, the side that is flat.
pub open spec fn flat_side(p: TileImagePos) -> Option<crate::mesher::Direction> {
    match p {
        TileImagePos::UpFlat => Some(crate::mesher::Direction::Top),
        TileImagePos::DownFlat => Some(crate::mesher::Direction::Bottom),
        TileImagePos::LeftFlat => Some(crate::mesher::Direction::Left),
        TileImagePos::RightFlat => Some(crate::mesher::Direction::Right),
        _ => None,
    }
}

/// For an end sprite, the side that ends.
pub open spec fn end_side(p: TileImagePos) -> Option<crate::mesher::Direction> {
    match p {
        TileImagePos::UpEnd => Some(crate::mesher::Direction::Top),
        TileImagePos::DownEnd => Some(crate::mesher::Direction::Bottom),
        TileImagePos::LeftEnd => Some(crate::mesher::Direction::Left),
        TileImagePos::RightEnd => Some(crate::mesher::Direction::Right),
        _ => None,
    }
}

/// The row of the sheet that holds the flat and end sprites of a side: up, down, left,
/// right from the top.
pub open spec fn side_row(d: crate::mesher::Direction) -> u8 {
    match d {
        crate::mesher::Direction::Top => 0,
        crate::mesher::Direction::Bottom => 1,
        crate::mesher::Direction::Left => 2,
        crate::mesher::Direction::Right => 3,
    }
}

/// The layout of the sprite sheet: the four corners fill the 2 x 2 block at the top left,
/// right corners in column 1 and bottom corners in row 1; end sprites fill column 2 and
/// flat sprites column 3, a row per side; the straight pieces and the full tile sit in
/// the 2 x 2 block below the corners. Each cell holds one sprite, except that a lone tile
/// and a full one share theirs.
pub proof fn law_sprite_sheet_layout(p: TileImagePos, q: TileImagePos)
    ensures
        corner(p) matches Some((right, down)) ==> p.spec_tex_cell() == ((if right { 1u8 } else { 0u8 }), (if down { 1u8 } else { 0u8 })),
        end_side(p) matches Some(d) ==> p.spec_tex_cell() == (2u8, side_row(d)),
        flat_side(p) matches Some(d) ==> p.spec_tex_cell() == (3u8, side_row(d)),
        p.spec_tex_cell() == q.spec_tex_cell() && p != q ==> {
            ||| (p == TileImagePos::Solid && q == TileImagePos::Standalone)
            ||| (p == TileImagePos::Standalone && q == TileImagePos::Solid)
        },
        p == TileImagePos::Vertical ==> p.spec_tex_cell() == (0u8, 2u8),
        p == TileImagePos::Horizontal ==> p.spec_tex_cell() == (1u8, 3u8),
        p == TileImagePos::Solid ==> p.spec_tex_cell() == (1u8, 2u8),
{
}

} // verus!
