//! One request of a session: the payload of a framed command comes in, the
//! board moves, and the framed update goes out. Any error ends the session; the
//! loop that reads and writes the connection stands outside the library.
use crate::frame::{encode_frame, framed};
use crate::wire::{decode_movement, decoded_movement, encode_update, update_bytes};
use crate::world::{search_state, step, MoveError, RobotMovement, World, WorldUpdate};
use vstd::prelude::*;

verus! {

/// Why a session ends.
#[derive(Clone, Copy, Debug, PartialEq, Eq, Structural)]
pub enum SessionError {
    /// The payload carries no movement command.
    Decode,
    /// The board refused the move.
    Move(MoveError),
}

/// Applies one movement to the board and builds the update to send back: a
/// snapshot of the board after the move and its search state.
pub fn apply_movement(world: &mut World, m: RobotMovement) -> (r: Result<WorldUpdate, MoveError>)
    requires
        old(world).wf(),
    ensures
        final(world).wf(),
        match step(old(world)@, m) {
            Ok(g) => final(world)@ == g && (r matches Ok(u) && u.world@ == g && u.world_state
                == search_state(g)),
            Err(e) => final(world)@ == old(world)@ && r == Err::<WorldUpdate, MoveError>(e),
        },
{
    match world.move_robot(m) {
        Err(e) => Err(e),
        Ok(()) => {
            let world_state = world.world_state();
            Ok(WorldUpdate { world: world.snapshot(), world_state })
        },
    }
}

/// Serves one request: decodes the movement in `payload`, applies it, and
/// returns the frame that carries the update.
pub fn serve_request(world: &mut World, payload: &[u8]) -> (r: Result<Vec<u8>, SessionError>)
    requires
        old(world).wf(),
    ensures
        final(world).wf(),
        match decoded_movement(payload@) {
            None => final(world)@ == old(world)@ && r == Err::<Vec<u8>, SessionError>(
                SessionError::Decode,
            ),
            Some(m) => match step(old(world)@, m) {
                Ok(g) => final(world)@ == g && (r matches Ok(b) && b@ == framed(
                    update_bytes(g, search_state(g)),
                )),
                Err(e) => final(world)@ == old(world)@ && r == Err::<Vec<u8>, SessionError>(
                    SessionError::Move(e),
                ),
            },
        },
{
    let m = match decode_movement(payload) {
        None => {
            return Err(SessionError::Decode);
        },
        Some(m) => m,
    };
    let update = match apply_movement(world, m) {
        Err(e) => {
            return Err(SessionError::Move(e));
        },
        Ok(u) => u,
    };
    Ok(encode_frame(&encode_update(&update)))
}

} // verus!
