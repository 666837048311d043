use vstd::prelude::*;

verus! {

/// The kind of a cell of the map.
#[derive(Clone, Copy, Debug, PartialEq, Eq, Structural)]
pub enum Tile {
    Wall,
    Floor,
    Void,
}

/// The text that shows a tile.
pub open spec fn tile_text(t: Tile) -> Seq<char> {
    match t {
        Tile::Wall => "W"@,
        Tile::Floor => "F"@,
        Tile::Void => "V"@,
    }
}

impl Tile {
    /// The text that shows this tile: `"W"`, `"F"` or `"V"`.
    pub fn to_string(&self) -> (s: String)
        ensures
            s@ == tile_text(*self),
    {
        match self {
            Tile::Wall => "W".to_owned(),
            Tile::Floor => "F".to_owned(),
            Tile::Void => "V".to_owned(),
        }
    }
}

/// The tile that terrain generation puts where the noise value lies above
/// zero (a wall) or not (a floor).
pub open spec fn tile_for_noise(above_zero: bool) -> Tile {
    if above_zero {
        Tile::Wall
    } else {
        Tile::Floor
    }
}

/// The tile for a cell whose noise value does (`true`) or does not lie
/// above zero.
pub fn tile_for_noise_sign(above_zero: bool) -> (t: Tile)
    ensures
        t == tile_for_noise(above_zero),
{
    if above_zero {
        Tile::Wall
    } else {
        Tile::Floor
    }
}

} // verus!
