//! A championship: a series of games on worlds of one size.
use vstd::prelude::*;

use crate::api::{player::Player, world_size::WorldSize};
use crate::engine::outcome::{ChampionshipOutcome, PlayerEntry};

verus! {

pub struct Championship {
    world_size: WorldSize,
}

impl Championship {
    pub closed spec fn world_size_spec(self) -> WorldSize {
        self.world_size
    }

    pub fn new(world_size: WorldSize) -> (r: Self)
        ensures
            r.world_size_spec() == world_size,
    {
        Championship { world_size }
    }

    pub fn world_size(&self) -> (r: WorldSize)
        ensures
            r == self.world_size_spec(),
    {
        self.world_size
    }

    /// Registers the players that are ready for battle, numbered from one in the order
    /// given; the others take no part. Whether a player is ready, and its name, are the
    /// player's own answers; see `register_players`.
    pub fn register_ready_players(
        &self,
        players: &Vec<Box<dyn Player>>,
        outcome: &mut ChampionshipOutcome,
    ) -> (r: u8)
        requires
            players@.len() <= 255,
        ensures
            exists|answers: Seq<(bool, String)>|
                answers.len() == players@.len() && #[trigger] registered_in(
                    old(outcome).players_spec(),
                    final(outcome).players_spec(),
                    answers,
                ) && r == registrations(answers, answers.len() as int).len(),
            final(outcome).games_spec() == old(outcome).games_spec(),
            final(outcome).ranks_spec() == old(outcome).ranks_spec(),
    {
        let mut answers: Vec<(bool, String)> = Vec::new();
        let mut k: usize = 0;
        while k < players.len()
            invariant
                k <= players@.len(),
                answers@.len() == k,
            decreases players@.len() - k,
        {
            let player = &players[k];
            if player.is_ready() {
                answers.push((true, player.name()));
            } else {
                answers.push((false, String::new()));
            }
            k = k + 1;
        }
        self.register_players(&answers, outcome)
    }

    /// Registers the players whose answer says they are ready, each under the name it
    /// gives, numbered from one in the order given.
    pub fn register_players(
        &self,
        answers: &Vec<(bool, String)>,
        outcome: &mut ChampionshipOutcome,
    ) -> (r: u8)
        requires
            answers@.len() <= 255,
        ensures
            registered_in(old(outcome).players_spec(), final(outcome).players_spec(), answers@),
            r == registrations(answers@, answers@.len() as int).len(),
            final(outcome).games_spec() == old(outcome).games_spec(),
            final(outcome).ranks_spec() == old(outcome).ranks_spec(),
    {
        let ghost start = outcome.players_spec();
        let mut player_id: u8 = 0;
        let mut k: usize = 0;
        while k < answers.len()
            invariant
                k <= answers@.len(),
                answers@.len() <= 255,
                player_id == registrations(answers@, k as int).len(),
                registrations(answers@, k as int).len() <= k,
                outcome.players_spec().len() == start.len() + player_id,
                outcome.players_spec().subrange(0, start.len() as int) == start,
                forall|i: int|
                    0 <= i < player_id ==> (#[trigger] outcome.players_spec()[start.len() + i]).id_spec()
                        == registrations(answers@, k as int)[i].0 && outcome.players_spec()[start.len()
                        + i].name_spec() == registrations(answers@, k as int)[i].1,
                outcome.games_spec() == old(outcome).games_spec(),
                outcome.ranks_spec() == old(outcome).ranks_spec(),
            decreases answers@.len() - k,
        {
            let ghost reg = registrations(answers@, k as int);
            if answers[k].0 {
                player_id += 1;
                let ghost before = outcome.players_spec();
                outcome.register_player(player_id, answers[k].1.clone());
                proof {
                    let after = outcome.players_spec();
                    let next = registrations(answers@, k + 1);
                    assert(next == reg.push(((reg.len() + 1) as int, answers@[k as int].1@)));
                    assert(after.drop_last() == before);
                    assert forall|i: int| 0 <= i < player_id implies (#[trigger] after[start.len() + i]).id_spec()
                        == next[i].0 && after[start.len() + i].name_spec() == next[i].1 by {
                        if i < player_id - 1 {
                            assert(after[start.len() + i] == before[start.len() + i]);
                        }
                    }
                    assert(after.subrange(0, start.len() as int) =~= before.subrange(0, start.len() as int));
                }
            } else {
                proof {
                    assert(registrations(answers@, k + 1) == reg);
                }
            }
            k = k + 1;
        }
        player_id
    }
}

/// The registrations that answers make, from the first `n`: each player that is ready,
/// with the number that follows the ones before and the name it gave.
pub open spec fn registrations(answers: Seq<(bool, String)>, n: int) -> Seq<(int, Seq<char>)>
    decreases n,
{
    if n <= 0 {
        Seq::empty()
    } else {
        let prev = registrations(answers, n - 1);
        if answers[n - 1].0 {
            prev.push(((prev.len() + 1) as int, answers[n - 1].1@))
        } else {
            prev
        }
    }
}

/// The players of an outcome after the answers are registered: the ones before kept, then
/// one entry for each registration, with its number and name.
pub open spec fn registered_in(
    before: Seq<PlayerEntry>,
    after: Seq<PlayerEntry>,
    answers: Seq<(bool, String)>,
) -> bool {
    let reg = registrations(answers, answers.len() as int);
    &&& after.len() == before.len() + reg.len()
    &&& after.subrange(0, before.len() as int) == before
    &&& forall|i: int|
        0 <= i < reg.len() ==> (#[trigger] after[before.len() + i]).id_spec() == reg[i].0
            && after[before.len() + i].name_spec() == reg[i].1
}

} // verus!
