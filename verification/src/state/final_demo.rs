//! The last stage: one pawn on a wide ground.

use crate::client::GameClient;
use crate::data::world::ActorKind;
use crate::data::GlobalParams;
use crate::shared::PositionF32;
use crate::state::scene::{laid_out, lay_out, PawnLook};
use crate::state::{common_inputs, view_dragged, GameStateValue};
use vstd::prelude::*;

verus! {

/// The width of the ground, in cells.
pub const WIDTH: u32 = 32;

/// The height of the ground, in cells.
pub const HEIGHT: u32 = 16;

/// The scene that the stage starts with: one pawn at (100, 100). The place
/// is in floating point, carried as its bit pattern.
pub open spec fn scene() -> Seq<(ActorKind, PositionF32)> {
    seq![(ActorKind::Pawn, PositionF32 { x: 0x42C8_0000, y: 0x42C8_0000 })]
}

/// Starts the stage: the world that was there goes, and the pawn stands on
/// a new ground.
pub fn init(game: &mut GameClient, pawn: &PawnLook)
    ensures
        laid_out(
            *old(game),
            *final(game),
            WIDTH,
            HEIGHT,
            scene(),
            GameStateValue::FinalDemo,
            *pawn,
        ),
{
    let places = [(ActorKind::Pawn, PositionF32 { x: 0x42C8_0000, y: 0x42C8_0000 })];
    assert(places@ =~= scene());
    lay_out(game, WIDTH, HEIGHT, places.as_slice(), GameStateValue::FinalDemo, pawn);
}

/// Takes one step of the stage: the mouse may drag the view, and does
/// nothing else.
pub fn update<M: Fn(&GlobalParams) -> Option<PositionF32>>(game: &mut GameClient, scrolled: M)
    requires
        scrolled.requires((&old(game).data.globals,)),
    ensures
        view_dragged(*old(game), *final(game), scrolled),
{
    common_inputs(game, scrolled);
}

} // verus!
