//! What a renderer shows for each tile and for the search state.
use crate::world::{Tile, WorldState};
use vstd::prelude::*;

verus! {

/// The character drawn for a tile.
pub fn tile_glyph(t: Tile) -> (r: char)
    ensures
        r == match t {
            Tile::Robot => 'R',
            Tile::Food => 'F',
            Tile::Empty => '.',
        },
{
    match t {
        Tile::Robot => 'R',
        Tile::Food => 'F',
        Tile::Empty => '.',
    }
}

/// The status line shown above the board.
pub fn status_line(s: WorldState) -> (r: &'static str)
    ensures
        s == WorldState::FoundFood ==> r@ == "Robot: <3 yummy!"@,
        s == WorldState::Searching ==> r@ == "Robot: I want food!"@,
{
    match s {
        WorldState::FoundFood => "Robot: <3 yummy!",
        WorldState::Searching => "Robot: I want food!",
    }
}

} // verus!
