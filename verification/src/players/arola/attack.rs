use vstd::prelude::*;

use super::helpers::others_seen;
use super::{Arola, PlayerState};
use crate::api::{action::Action, aiming::Aiming, context::Context, scan::ScanType};

verus! {

/// The answer to what the context shows: a positional shot at the first other living tank
/// that the scan shows, staying on the attack; otherwise a scan ahead, back to exploring.
pub open spec fn attack_answer(ctx: Context) -> (PlayerState, Action) {
    let fallback = (
        PlayerState::Explore,
        Action::Scan(ScanType::Mono(ctx.details().orientation)),
    );
    match ctx.scan_spec() {
        Some(scan) => {
            let others = others_seen(scan, ctx.details().id, ctx.position_spec());
            if others.len() > 0 {
                (PlayerState::Attack, Action::Fire(Aiming::Positional(others[0].1)))
            } else {
                fallback
            }
        },
        None => fallback,
    }
}

impl Arola {
    pub(super) fn attack(&mut self, context: &Context) -> (r: (PlayerState, Action))
        ensures
            r == attack_answer(*context),
            *final(self) == *old(self),
    {
        if let Some(scan_result) = context.scanned_data() {
            let other_players = scan_result.find_other_players(
                context.player_details().id,
                context.position(),
            );
            if other_players.len() > 0 {
                return (
                    PlayerState::Attack,
                    Action::Fire(Aiming::Positional(other_players[0].1)),
                );
            }
        }
        return (
            PlayerState::Explore,
            Action::Scan(ScanType::Mono(context.player_details().orientation)),
        );
    }
}

} // verus!
