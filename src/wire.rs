//! The two wire messages: a movement command from the client and a world
//! update back. Each variant travels as its bincode variant index; the grid as
//! rows of tile indices.
use crate::world::{
    search_state, well_shaped, Grid, RobotMovement, Tile, World, WorldState, WorldUpdate,
};
use crate::frame::le_bytes;
use vstd::prelude::*;

verus! {

/// The four little-endian bytes of `c`.
pub open spec fn u32_le_bytes(c: u32) -> Seq<u8> {
    seq![
        (c & 0xff) as u8,
        ((c >> 8u32) & 0xff) as u8,
        ((c >> 16u32) & 0xff) as u8,
        ((c >> 24u32) & 0xff) as u8,
    ]
}

/// The number whose little-endian bytes are the first four of `b`.
pub open spec fn u32_of_le(b: Seq<u8>) -> u32
    recommends
        b.len() >= 4,
{
    (b[0] as u32) | ((b[1] as u32) << 8u32) | ((b[2] as u32) << 16u32) | ((b[3] as u32) << 24u32)
}

/// The little-endian bytes of each index of `row`, one after another.
pub open spec fn codes_bytes(row: Seq<u32>) -> Seq<u8> {
    row.map_values(|c: u32| u32_le_bytes(c)).flatten()
}

/// A sequence of indices: its length as eight little-endian bytes, then the indices.
pub open spec fn row_bytes(row: Seq<u32>) -> Seq<u8> {
    le_bytes(row.len() as u64) + codes_bytes(row)
}

/// Every length fits the eight bytes that carry it.
pub open spec fn lengths_fit(rows: Seq<Seq<u32>>) -> bool {
    &&& rows.len() <= u64::MAX
    &&& forall|i: int| 0 <= i < rows.len() ==> (#[trigger] rows[i]).len() <= u64::MAX
}

/// Rows of indices and a state index as bincode lays them out: the number of
/// rows, each row, then the state.
pub open spec fn grid_bytes(rows: Seq<Seq<u32>>, state: u32) -> Seq<u8> {
    le_bytes(rows.len() as u64) + rows.map_values(|row: Seq<u32>| row_bytes(row)).flatten()
        + u32_le_bytes(state)
}

/// An update as it travels: rows of tile indices and a state index.
pub type CodedUpdate = (Vec<Vec<u32>>, u32);

/// The mathematical form of a `CodedUpdate`.
pub type UpdateCodes = (Seq<Seq<u32>>, u32);

/// The rows of `v` as sequences.
pub open spec fn rows_of(v: Seq<Vec<u32>>) -> Seq<Seq<u32>> {
    v.map_values(|row: Vec<u32>| row@)
}

/// Relies on `bincode::serialize` of a `u32`: with its default fixed-size
/// integers it writes the four little-endian bytes. With no byte limit it
/// cannot fail on an integer.
#[verifier::external_body]
fn serialize_u32(c: u32) -> (r: Vec<u8>)
    ensures
        r@ == u32_le_bytes(c),
{
    bincode::serialize(&c).expect("bincode has no byte limit by default")
}

/// Relies on `bincode::deserialize` of a `u32`: it reads the first four bytes as
/// little-endian, ignores any that follow, and fails on fewer.
#[verifier::external_body]
fn deserialize_u32(b: &[u8]) -> (r: Option<u32>)
    ensures
        b@.len() >= 4 ==> r == Some(u32_of_le(b@)),
        b@.len() < 4 ==> r is None,
{
    bincode::deserialize::<u32>(b).ok()
}

/// Relies on `bincode::serialize` of a `(Vec<Vec<u32>>, u32)`: with its default
/// fixed-size integers each sequence is its length as a little-endian `u64`
/// followed by its items, and a tuple its fields in order. With no byte limit
/// it cannot fail on integers and sequences of known length.
#[verifier::external_body]
fn serialize_grid(rows: &Vec<Vec<u32>>, state: u32) -> (r: Vec<u8>)
    ensures
        r@ == grid_bytes(rows_of(rows@), state),
{
    bincode::serialize(&(rows, state)).expect("bincode has no byte limit by default")
}

/// Relies on `bincode::deserialize` of a `(Vec<Vec<u32>>, u32)`: it reads back
/// every value from the bytes that `bincode::serialize` writes for it.
#[verifier::external_body]
fn deserialize_grid(b: &[u8]) -> (r: Option<CodedUpdate>)
    ensures
        forall|v: UpdateCodes| lengths_fit(v.0) && b@ == #[trigger] grid_bytes(v.0, v.1) ==> r is Some && rows_of((r->0).0@) == v.0 && (r->0).1 == v.1,
{
    bincode::deserialize::<CodedUpdate>(b).ok()
}

pub open spec fn movement_code(m: RobotMovement) -> u32 {
    match m {
        RobotMovement::Up => 0,
        RobotMovement::Left => 1,
        RobotMovement::Right => 2,
        RobotMovement::Down => 3,
    }
}

pub open spec fn movement_of_code(c: u32) -> Option<RobotMovement> {
    if c == 0 {
        Some(RobotMovement::Up)
    } else if c == 1 {
        Some(RobotMovement::Left)
    } else if c == 2 {
        Some(RobotMovement::Right)
    } else if c == 3 {
        Some(RobotMovement::Down)
    } else {
        None
    }
}

pub open spec fn tile_code(t: Tile) -> u32 {
    match t {
        Tile::Robot => 0,
        Tile::Food => 1,
        Tile::Empty => 2,
    }
}

/// The tile with index `c`; only indices below three name a tile.
pub open spec fn tile_of_code(c: u32) -> Tile {
    if c == 0 {
        Tile::Robot
    } else if c == 1 {
        Tile::Food
    } else {
        Tile::Empty
    }
}

pub open spec fn state_code(s: WorldState) -> u32 {
    match s {
        WorldState::FoundFood => 0,
        WorldState::Searching => 1,
    }
}

pub open spec fn state_of_code(c: u32) -> Option<WorldState> {
    if c == 0 {
        Some(WorldState::FoundFood)
    } else if c == 1 {
        Some(WorldState::Searching)
    } else {
        None
    }
}

pub open spec fn grid_codes(g: Grid) -> Seq<Seq<u32>> {
    g.map_values(|row: Seq<Tile>| row.map_values(|t: Tile| tile_code(t)))
}

/// Every index names a tile.
pub open spec fn codes_valid(rows: Seq<Seq<u32>>) -> bool {
    forall|i: int, j: int| 0 <= i < rows.len() && 0 <= j < rows[i].len() ==> #[trigger] rows[i][j] < 3
}

pub open spec fn grid_of_codes(rows: Seq<Seq<u32>>) -> Grid {
    rows.map_values(|row: Seq<u32>| row.map_values(|c: u32| tile_of_code(c)))
}

/// The bytes that carry the update of grid `g` in state `s`.
pub open spec fn update_bytes(g: Grid, s: WorldState) -> Seq<u8> {
    grid_bytes(grid_codes(g), state_code(s))
}

/// The bytes that carry movement `m`.
pub open spec fn movement_bytes(m: RobotMovement) -> Seq<u8> {
    u32_le_bytes(movement_code(m))
}

/// The movement that the bytes `b` carry, if any.
pub open spec fn decoded_movement(b: Seq<u8>) -> Option<RobotMovement> {
    if b.len() >= 4 {
        movement_of_code(u32_of_le(b))
    } else {
        None
    }
}

/// The movement with index `c`, if any.
pub fn movement_from_code(c: u32) -> (r: Option<RobotMovement>)
    ensures
        r == movement_of_code(c),
{
    if c == 0 {
        Some(RobotMovement::Up)
    } else if c == 1 {
        Some(RobotMovement::Left)
    } else if c == 2 {
        Some(RobotMovement::Right)
    } else if c == 3 {
        Some(RobotMovement::Down)
    } else {
        None
    }
}

/// The state with index `c`, if any.
pub fn state_from_code(c: u32) -> (r: Option<WorldState>)
    ensures
        r == state_of_code(c),
{
    if c == 0 {
        Some(WorldState::FoundFood)
    } else if c == 1 {
        Some(WorldState::Searching)
    } else {
        None
    }
}

/// Encodes a movement command.
pub fn encode_movement(m: RobotMovement) -> (r: Vec<u8>)
    ensures
        r@ == movement_bytes(m),
{
    let c: u32 = match m {
        RobotMovement::Up => 0,
        RobotMovement::Left => 1,
        RobotMovement::Right => 2,
        RobotMovement::Down => 3,
    };
    serialize_u32(c)
}

/// Decodes a movement command; `None` where the bytes carry none.
pub fn decode_movement(b: &[u8]) -> (r: Option<RobotMovement>)
    ensures
        r == decoded_movement(b@),
{
    match deserialize_u32(b) {
        Some(c) => movement_from_code(c),
        None => None,
    }
}

/// The tile indices of the board, row by row.
pub fn grid_to_codes(world: &World) -> (r: Vec<Vec<u32>>)
    ensures
        rows_of(r@) == grid_codes(world@),
{
    let mut rows: Vec<Vec<u32>> = Vec::new();
    let mut i: usize = 0;
    while i < world.data.len()
        invariant
            i <= world.data@.len(),
            rows@.len() == i,
            forall|k: int| 0 <= k < i ==> #[trigger] rows@[k]@ == grid_codes(world@)[k],
        decreases world.data@.len() - i,
    {
        let src = &world.data[i];
        let ghost want = grid_codes(world@)[i as int];
        assert(want == src@.map_values(|t: Tile| tile_code(t)));
        let mut row: Vec<u32> = Vec::new();
        let mut j: usize = 0;
        while j < src.len()
            invariant
                j <= src@.len(),
                want == src@.map_values(|t: Tile| tile_code(t)),
                row@ == want.subrange(0, j as int),
            decreases src@.len() - j,
        {
            let c: u32 = match src[j] {
                Tile::Robot => 0,
                Tile::Food => 1,
                Tile::Empty => 2,
            };
            row.push(c);
            j = j + 1;
            assert(row@ =~= want.subrange(0, j as int));
        }
        assert(row@ =~= want);
        rows.push(row);
        i = i + 1;
    }
    assert(rows_of(rows@) =~= grid_codes(world@));
    rows
}

/// The board with the given tile indices, or `None` where an index names no tile.
pub fn world_from_codes(rows: &Vec<Vec<u32>>) -> (r: Option<World>)
    ensures
        r is Some <==> codes_valid(rows_of(rows@)),
        r matches Some(w) ==> w@ == grid_of_codes(rows_of(rows@)),
{
    let ghost codes = rows_of(rows@);
    let mut data: Vec<Vec<Tile>> = Vec::new();
    let mut i: usize = 0;
    while i < rows.len()
        invariant
            codes == rows_of(rows@),
            i <= rows@.len(),
            data@.len() == i,
            forall|k: int| 0 <= k < i ==> #[trigger] data@[k]@ == grid_of_codes(codes)[k],
            forall|a: int, c: int| 0 <= a < i && 0 <= c < codes[a].len() ==> #[trigger] codes[a][c] < 3,
        decreases rows@.len() - i,
    {
        let src = &rows[i];
        assert(src@ == codes[i as int]);
        let ghost want = grid_of_codes(codes)[i as int];
        let mut row: Vec<Tile> = Vec::new();
        let mut j: usize = 0;
        while j < src.len()
            invariant
                j <= src@.len(),
                want == src@.map_values(|c: u32| tile_of_code(c)),
                codes == rows_of(rows@),
                i < codes.len(),
                src@ == codes[i as int],
                row@ == want.subrange(0, j as int),
                forall|c: int| 0 <= c < j ==> #[trigger] src@[c] < 3,
            decreases src@.len() - j,
        {
            let c = src[j];
            if c >= 3 {
                proof {
                    assert(codes[i as int][j as int] >= 3);
                    assert(!codes_valid(codes));
                }
                return None;
            }
            let t = if c == 0 {
                Tile::Robot
            } else if c == 1 {
                Tile::Food
            } else {
                Tile::Empty
            };
            row.push(t);
            j = j + 1;
            assert(row@ =~= want.subrange(0, j as int));
        }
        assert(row@ =~= want);
        data.push(row);
        i = i + 1;
    }
    let w = World { data };
    assert(w@ =~= grid_of_codes(codes));
    Some(w)
}

/// Encodes an update.
pub fn encode_update(u: &WorldUpdate) -> (r: Vec<u8>)
    ensures
        r@ == update_bytes(u.world@, u.world_state),
{
    let rows = grid_to_codes(&u.world);
    let state: u32 = match u.world_state {
        WorldState::FoundFood => 0,
        WorldState::Searching => 1,
    };
    serialize_grid(&rows, state)
}

/// Decodes an update. Where the bytes are those that bincode writes for some
/// tile and state indices, the result is `Some` exactly when every index names a
/// tile or state, and then holds those.
pub fn decode_update(b: &[u8]) -> (r: Option<WorldUpdate>)
    ensures
        forall|v: UpdateCodes|
            lengths_fit(v.0) && b@ == #[trigger] grid_bytes(v.0, v.1) ==> (r is Some <==> codes_valid(v.0) && state_of_code(v.1) is Some)
                && (r matches Some(u) ==> u.world@ == grid_of_codes(v.0) && state_of_code(v.1) == Some(u.world_state)),
{
    match deserialize_grid(b) {
        None => None,
        Some(p) => {
            let (rows, state) = p;
            match state_from_code(state) {
                None => None,
                Some(world_state) => match world_from_codes(&rows) {
                    None => None,
                    Some(world) => Some(WorldUpdate { world, world_state }),
                },
            }
        },
    }
}

/// Decoding the bytes of a movement gives that movement back.
pub proof fn lemma_movement_round_trip(m: RobotMovement)
    ensures
        decoded_movement(movement_bytes(m)) == Some(m),
{
    let c = movement_code(m);
    assert(((c & 0xff) as u8 as u32) | ((((c >> 8u32) & 0xff) as u8 as u32) << 8u32) | ((((c
        >> 16u32) & 0xff) as u8 as u32) << 16u32) | ((((c >> 24u32) & 0xff) as u8 as u32)
        << 24u32) == c) by (bit_vector);
    assert(u32_of_le(movement_bytes(m)) == c);
}

/// Decoding the bytes of an update gives the same board and state back: every
/// length that encoding writes fits its prefix, and every index names a tile or
/// state, the one it came from.
pub proof fn lemma_update_round_trip(g: Grid, s: WorldState)
    requires
        well_shaped(g),
    ensures
        lengths_fit(grid_codes(g)),
        codes_valid(grid_codes(g)),
        grid_of_codes(grid_codes(g)) == g,
        state_of_code(state_code(s)) == Some(s),
{
    let c = grid_codes(g);
    assert forall|i: int| 0 <= i < c.len() implies (#[trigger] c[i]).len() <= u64::MAX by {
        assert(c[i].len() == g[i].len());
    }
    assert forall|i: int, j: int| 0 <= i < c.len() && 0 <= j < c[i].len() implies #[trigger] c[i][j] < 3 by {}
    assert forall|i: int| 0 <= i < g.len() implies #[trigger] grid_of_codes(c)[i] == g[i] by {
        assert(grid_of_codes(c)[i] =~= g[i]);
    }
    assert(grid_of_codes(c) =~= g);
}

} // verus!
