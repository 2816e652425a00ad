//! What happened in a game: the map it began on, every turn, and the final ranks.
use std::collections::HashMap;

use vstd::prelude::*;

use crate::api::{
    action::Action, map_cell::MapCell, player::PlayerId, position::Position,
    world_size::MAX_WORLD_SIZE,
};

verus! {

broadcast use vstd::std_specs::hash::group_hash_axioms;

#[derive(Debug)]
pub struct PlayerEntry {
    id: PlayerId,
    name: String,
}

impl PlayerEntry {
    /// A registered player: its id and its name.
    pub fn new(id: PlayerId, name: String) -> (r: Self)
        ensures
            r.id_spec() == id,
            r.name_spec() == name@,
    {
        PlayerEntry { id, name }
    }

    pub closed spec fn id_spec(self) -> PlayerId {
        self.id
    }

    pub closed spec fn name_spec(self) -> Seq<char> {
        self.name@
    }

    pub fn id(&self) -> (r: PlayerId)
        ensures
            r == self.id_spec(),
    {
        self.id
    }

    pub fn name(&self) -> (r: String)
        ensures
            r@ == self.name_spec(),
    {
        self.name.clone()
    }
}

#[derive(Debug)]
pub struct GameOutcome {
    game_id: u32,
    original_map: Box<[[MapCell; MAX_WORLD_SIZE]; MAX_WORLD_SIZE]>,
    turns: Vec<TurnOutcome>,
    ranks: HashMap<PlayerId, u8>,
}

impl GameOutcome {
    pub closed spec fn game_id_spec(self) -> u32 {
        self.game_id
    }

    pub closed spec fn map_spec(self) -> [[MapCell; MAX_WORLD_SIZE]; MAX_WORLD_SIZE] {
        *self.original_map
    }

    pub closed spec fn turns_spec(self) -> Seq<TurnOutcome> {
        self.turns@
    }

    pub closed spec fn ranks_spec(self) -> Map<PlayerId, u8> {
        self.ranks@
    }

    pub fn new(game_id: u32, original_map: Box<[[MapCell; MAX_WORLD_SIZE]; MAX_WORLD_SIZE]>) -> (r:
        Self)
        ensures
            r.game_id_spec() == game_id,
            r.map_spec() == *original_map,
            r.turns_spec() == Seq::<TurnOutcome>::empty(),
            r.ranks_spec() == Map::<PlayerId, u8>::empty(),
    {
        GameOutcome { game_id, original_map, turns: Vec::new(), ranks: HashMap::new() }
    }

    pub fn add_turn_outcome(&mut self, turn: TurnOutcome)
        ensures
            final(self).turns_spec() == old(self).turns_spec().push(turn),
            final(self).ranks_spec() == old(self).ranks_spec(),
            final(self).game_id_spec() == old(self).game_id_spec(),
            final(self).map_spec() == old(self).map_spec(),
    {
        self.turns.push(turn);
    }

    pub fn add_player_rank(&mut self, id: PlayerId, rank: u8)
        ensures
            final(self).ranks_spec() == old(self).ranks_spec().insert(id, rank),
            final(self).turns_spec() == old(self).turns_spec(),
            final(self).game_id_spec() == old(self).game_id_spec(),
            final(self).map_spec() == old(self).map_spec(),
    {
        self.ranks.insert(id, rank);
    }

    /// The rank that a player got in this game, if it got one.
    pub fn rank_of(&self, id: PlayerId) -> (r: Option<u8>)
        ensures
            r == (if self.ranks_spec().contains_key(id) {
                Some(self.ranks_spec()[id])
            } else {
                None
            }),
    {
        match self.ranks.get(&id) {
            Some(rank) => Some(*rank),
            None => None,
        }
    }
}

#[derive(Debug)]
pub struct TurnOutcome {
    number: usize,
    players: HashMap<PlayerId, PlayerOutcome>,
}

impl TurnOutcome {
    pub closed spec fn number_spec(self) -> usize {
        self.number
    }

    pub closed spec fn players_spec(self) -> Map<PlayerId, PlayerOutcome> {
        self.players@
    }

    pub fn new(number: usize) -> (r: Self)
        ensures
            r.number_spec() == number,
            r.players_spec() == Map::<PlayerId, PlayerOutcome>::empty(),
    {
        TurnOutcome { number, players: HashMap::new() }
    }

    pub fn add_player_outcome(&mut self, id: PlayerId, outcome: PlayerOutcome)
        ensures
            final(self).players_spec() == old(self).players_spec().insert(id, outcome),
            final(self).number_spec() == old(self).number_spec(),
    {
        self.players.insert(id, outcome);
    }
}

#[derive(Clone, Copy, Debug, PartialEq, Eq, Structural)]
pub struct PlayerOutcome {
    pub action: Action,
    pub health: u8,
    pub position: Position,
    pub score: u16,
}

impl PlayerOutcome {
    pub fn new(action: Action, health: u8, position: Position, score: u16) -> (r: Self)
        ensures
            r == (PlayerOutcome { action, health, position, score }),
    {
        PlayerOutcome { action, health, position, score }
    }
}

/// The sum of the ranks that a player got over the games.
pub open spec fn rank_sum(games: Seq<GameOutcome>, id: PlayerId) -> nat
    decreases games.len(),
{
    if games.len() == 0 {
        0
    } else {
        rank_sum(games.drop_last(), id) + if games.last().ranks_spec().contains_key(id) {
            games.last().ranks_spec()[id] as nat
        } else {
            0
        }
    }
}

/// Whether a player got a rank in any of the games.
pub open spec fn ranked_in(games: Seq<GameOutcome>, id: PlayerId) -> bool {
    exists|g: int| 0 <= g < games.len() && #[trigger] games[g].ranks_spec().contains_key(id)
}

/// The totals of ranks: every player ranked in some game, with the sum of its ranks.
pub open spec fn rank_totals(games: Seq<GameOutcome>) -> Map<PlayerId, u32> {
    Map::new(|id: PlayerId| ranked_in(games, id), |id: PlayerId| rank_sum(games, id) as u32)
}

/// Ranks add up to at most 255 for each game.
proof fn lemma_rank_sum_bound(games: Seq<GameOutcome>, id: PlayerId)
    ensures
        rank_sum(games, id) <= 255 * games.len(),
    decreases games.len(),
{
    if games.len() > 0 {
        lemma_rank_sum_bound(games.drop_last(), id);
    }
}

/// A player is ranked in some of the first games exactly when it is in some game of them.
proof fn lemma_ranked_in_push(games: Seq<GameOutcome>, g: int, id: PlayerId)
    requires
        0 <= g < games.len(),
    ensures
        ranked_in(games.subrange(0, g + 1), id) == (ranked_in(games.subrange(0, g), id)
            || games[g].ranks_spec().contains_key(id)),
        rank_sum(games.subrange(0, g + 1), id) == rank_sum(games.subrange(0, g), id) + if games[g].ranks_spec().contains_key(id) {
            games[g].ranks_spec()[id] as nat
        } else {
            0
        },
{
    let a = games.subrange(0, g + 1);
    let b = games.subrange(0, g);
    assert(a.drop_last() =~= b);
    assert(a.last() == games[g]);
    if ranked_in(a, id) && !games[g].ranks_spec().contains_key(id) {
        let w = choose|w: int| 0 <= w < a.len() && #[trigger] a[w].ranks_spec().contains_key(id);
        assert(b[w] == a[w]);
    }
    if ranked_in(b, id) {
        let w = choose|w: int| 0 <= w < b.len() && #[trigger] b[w].ranks_spec().contains_key(id);
        assert(a[w] == b[w]);
    }
    if games[g].ranks_spec().contains_key(id) {
        assert(a[g].ranks_spec().contains_key(id));
    }
}

#[derive(Debug)]
pub struct ChampionshipOutcome {
    players: Vec<PlayerEntry>,
    game_results: Vec<GameOutcome>,
    ranks: HashMap<PlayerId, u32>,
}

impl ChampionshipOutcome {
    /// The players registered, in order.
    pub closed spec fn players_spec(self) -> Seq<PlayerEntry> {
        self.players@
    }

    /// The games played, in order.
    pub closed spec fn games_spec(self) -> Seq<GameOutcome> {
        self.game_results@
    }

    /// The totals of ranks computed last.
    pub closed spec fn ranks_spec(self) -> Map<PlayerId, u32> {
        self.ranks@
    }

    pub fn new() -> (r: Self)
        ensures
            r.players_spec() == Seq::<PlayerEntry>::empty(),
            r.games_spec() == Seq::<GameOutcome>::empty(),
            r.ranks_spec() == Map::<PlayerId, u32>::empty(),
    {
        ChampionshipOutcome { players: Vec::new(), game_results: Vec::new(), ranks: HashMap::new() }
    }

    pub fn register_player(&mut self, id: PlayerId, name: String)
        ensures
            final(self).players_spec().len() == old(self).players_spec().len() + 1,
            final(self).players_spec().drop_last() == old(self).players_spec(),
            final(self).players_spec().last().id_spec() == id,
            final(self).players_spec().last().name_spec() == name@,
            final(self).games_spec() == old(self).games_spec(),
            final(self).ranks_spec() == old(self).ranks_spec(),
    {
        self.players.push(PlayerEntry::new(id, name));
        proof {
            assert(self.players@.drop_last() =~= old(self).players@);
        }
    }

    pub fn add_game_result(&mut self, game_result: GameOutcome)
        ensures
            final(self).games_spec() == old(self).games_spec().push(game_result),
            final(self).players_spec() == old(self).players_spec(),
            final(self).ranks_spec() == old(self).ranks_spec(),
    {
        self.game_results.push(game_result);
    }

    /// Adds up, for every player ranked in some game, the ranks it got. The averages are
    /// these totals over the number of games played.
    pub fn compute_ranks(&mut self)
        requires
            old(self).games_spec().len() <= u32::MAX / 255,
        ensures
            final(self).ranks_spec() == rank_totals(old(self).games_spec()),
            final(self).games_spec() == old(self).games_spec(),
            final(self).players_spec() == old(self).players_spec(),
    {
        let ghost games = self.game_results@;
        let mut totals: HashMap<PlayerId, u32> = HashMap::new();
        let mut id: u16 = 0;
        while id < 256
            invariant
                id <= 256,
                games == self.game_results@,
                games.len() <= u32::MAX / 255,
                forall|k: PlayerId|
                    #![trigger totals@.contains_key(k)]
                    totals@.contains_key(k) <==> (k < id && ranked_in(games, k)),
                forall|k: PlayerId|
                    totals@.contains_key(k) ==> #[trigger] totals@[k] == rank_sum(games, k) as u32,
            decreases 256 - id,
        {
            let pid = id as u8;
            let mut sum: u32 = 0;
            let mut present = false;
            let mut g: usize = 0;
            while g < self.game_results.len()
                invariant
                    g <= games.len(),
                    games == self.game_results@,
                    games.len() <= u32::MAX / 255,
                    sum == rank_sum(games.subrange(0, g as int), pid),
                    present == ranked_in(games.subrange(0, g as int), pid),
                decreases games.len() - g,
            {
                proof {
                    lemma_ranked_in_push(games, g as int, pid);
                    lemma_rank_sum_bound(games.subrange(0, g as int + 1), pid);
                }
                if let Some(rank) = self.game_results[g].rank_of(pid) {
                    sum = sum + rank as u32;
                    present = true;
                }
                g = g + 1;
            }
            proof {
                assert(games.subrange(0, games.len() as int) =~= games);
            }
            if present {
                totals.insert(pid, sum);
            }
            id = id + 1;
        }
        proof {
            assert(totals@ =~= rank_totals(games));
        }
        self.ranks = totals;
    }

    /// The totals of ranks computed last, by player id.
    pub fn get_rank_totals(&self) -> (r: Vec<(PlayerId, u32)>)
        ensures
            forall|i: int| 0 <= i < r@.len() ==> self.ranks_spec().contains_key(#[trigger] r@[i].0)
                && self.ranks_spec()[r@[i].0] == r@[i].1,
            forall|k: PlayerId| #[trigger] self.ranks_spec().contains_key(k) ==> exists|i: int|
                0 <= i < r@.len() && r@[i].0 == k,
            forall|i: int, j: int| 0 <= i < j < r@.len() ==> r@[i].0 < r@[j].0,
    {
        let mut result: Vec<(PlayerId, u32)> = Vec::new();
        let mut id: u16 = 0;
        while id < 256
            invariant
                id <= 256,
                forall|i: int| 0 <= i < result@.len() ==> self.ranks_spec().contains_key(
                    #[trigger] result@[i].0,
                ) && self.ranks_spec()[result@[i].0] == result@[i].1 && result@[i].0 < id,
                forall|k: PlayerId| #[trigger]
                    self.ranks_spec().contains_key(k) && k < id ==> exists|i: int|
                        0 <= i < result@.len() && result@[i].0 == k,
                forall|i: int, j: int| 0 <= i < j < result@.len() ==> result@[i].0 < result@[j].0,
            decreases 256 - id,
        {
            let pid = id as u8;
            if let Some(total) = self.ranks.get(&pid) {
                let ghost before = result@;
                result.push((pid, *total));
                proof {
                    assert(result@[before.len() as int].0 == pid);
                    assert forall|k: PlayerId| #[trigger]
                        self.ranks_spec().contains_key(k) && k < id + 1 implies exists|i: int|
                        0 <= i < result@.len() && result@[i].0 == k by {
                        if k < id {
                            let w = choose|i: int| 0 <= i < before.len() && before[i].0 == k;
                            assert(result@[w] == before[w]);
                        } else {
                            assert(result@[before.len() as int].0 == k);
                        }
                    }
                }
            }
            id = id + 1;
        }
        result
    }

    /// The number of games played.
    pub fn games_played(&self) -> (r: usize)
        ensures
            r == self.games_spec().len(),
    {
        self.game_results.len()
    }

    /// The name of the first player registered under the id.
    pub fn get_player_name(&self, id: PlayerId) -> (r: Option<String>)
        ensures
            match r {
                Some(name) => exists|i: int|
                    0 <= i < self.players_spec().len() && self.players_spec()[i].id_spec() == id
                        && name@ == self.players_spec()[i].name_spec() && forall|j: int|
                        0 <= j < i ==> #[trigger] self.players_spec()[j].id_spec() != id,
                None => forall|i: int|
                    0 <= i < self.players_spec().len() ==> #[trigger] self.players_spec()[i].id_spec()
                        != id,
            },
    {
        let mut i: usize = 0;
        while i < self.players.len()
            invariant
                i <= self.players_spec().len(),
                forall|j: int| 0 <= j < i ==> #[trigger] self.players_spec()[j].id_spec() != id,
            decreases self.players_spec().len() - i,
        {
            if self.players[i].id() == id {
                return Some(self.players[i].name());
            }
            i = i + 1;
        }
        None
    }
}

} // verus!
