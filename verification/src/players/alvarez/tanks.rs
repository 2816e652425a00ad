use vstd::prelude::*;

use crate::api::{
    orientation::Orientation,
    path_finder::alignment_spec,
    player::{Details, PlayerId},
    position::Position,
};

verus! {

/// How far a sighting lay from the point of reference: the square of the straight-line
/// distance, which orders sightings as the distance does.
pub type Distance = u128;

pub type Turn = usize;

/// The most sightings kept per tank.
pub const MAX_SIGHTINGS: usize = 10;

#[derive(Debug)]
pub struct TankInfo {
    pub id: PlayerId,
    pub alive: bool,
    pub known_positions: Vec<(Position, Distance, Turn)>,
    pub orientation: Orientation,
    pub prediction: Option<Position>,
}

impl Clone for TankInfo {
    fn clone(&self) -> (r: Self)
        ensures
            r.id == self.id,
            r.alive == self.alive,
            r.known_positions@ == self.known_positions@,
            r.orientation == self.orientation,
            r.prediction == self.prediction,
    {
        TankInfo {
            id: self.id,
            alive: self.alive,
            known_positions: copy_sightings(&self.known_positions),
            orientation: self.orientation,
            prediction: self.prediction,
        }
    }
}

impl TankInfo {
    pub fn find_alignment(&self, from: &Position, to: &Position) -> (r: Option<Orientation>)
        ensures
            r == alignment_spec(*from, *to),
    {
        let east_of = to.x > from.x;
        let dx: usize = if east_of {
            to.x - from.x
        } else {
            from.x - to.x
        };
        let south_of = to.y > from.y;
        let dy: usize = if south_of {
            to.y - from.y
        } else {
            from.y - to.y
        };

        if dx == 0 {
            if south_of {
                Some(Orientation::South)
            } else {
                Some(Orientation::North)
            }
        } else if dy == 0 {
            if east_of {
                Some(Orientation::East)
            } else {
                Some(Orientation::West)
            }
        } else if dx == dy {
            if east_of && south_of {
                Some(Orientation::SouthEast)
            } else if east_of {
                Some(Orientation::NorthEast)
            } else if south_of {
                Some(Orientation::SouthWest)
            } else {
                Some(Orientation::NorthWest)
            }
        } else {
            None
        }
    }
}

/// The sightings of a tank on consecutive turns, going back from index `idx`, which should
/// be seen on turn `expected`: each one a turn earlier than the one before.
pub open spec fn walk_back(
    kp: Seq<(Position, Distance, Turn)>,
    idx: int,
    expected: int,
) -> Seq<(Position, Turn)>
    decreases idx + 1,
{
    if idx < 0 || idx >= kp.len() || kp[idx].2 != expected {
        Seq::empty()
    } else if expected == 0 {
        seq![(kp[idx].0, kp[idx].2)]
    } else {
        seq![(kp[idx].0, kp[idx].2)] + walk_back(kp, idx - 1, expected - 1)
    }
}

/// The first index of a sighting on the given turn.
pub open spec fn first_on_turn(kp: Seq<(Position, Distance, Turn)>, turn: Turn) -> Option<int> {
    if exists|i: int| 0 <= i < kp.len() && kp[i].2 == turn {
        Some(
            choose|i: int|
                0 <= i < kp.len() && kp[i].2 == turn && forall|j: int|
                    0 <= j < i ==> #[trigger] kp[j].2 != turn,
        )
    } else {
        None
    }
}

/// The position one step from `p` towards `o`, with the coordinates wrapping at their ends.
pub open spec fn step_wrapping(p: Position, o: Orientation) -> Position {
    match o {
        Orientation::North => Position { x: p.x, y: p.y.wrapping_sub(1) },
        Orientation::South => Position { x: p.x, y: p.y.wrapping_add(1) },
        Orientation::East => Position { x: p.x.wrapping_add(1), y: p.y },
        Orientation::West => Position { x: p.x.wrapping_sub(1), y: p.y },
        Orientation::NorthEast => Position { x: p.x.wrapping_add(1), y: p.y.wrapping_sub(1) },
        Orientation::SouthEast => Position { x: p.x.wrapping_add(1), y: p.y.wrapping_add(1) },
        Orientation::SouthWest => Position { x: p.x.wrapping_sub(1), y: p.y.wrapping_add(1) },
        Orientation::NorthWest => Position { x: p.x.wrapping_sub(1), y: p.y.wrapping_sub(1) },
    }
}

/// The position that continues the step from `previous` to `latest` once more.
pub open spec fn extrapolated(latest: Position, previous: Position) -> Position {
    Position {
        x: latest.x.wrapping_add(latest.x.wrapping_sub(previous.x)),
        y: latest.y.wrapping_add(latest.y.wrapping_sub(previous.y)),
    }
}

/// Where a tank is expected next: one more of its last step when it was seen on the turn
/// and the turn before, else one step from its oldest sighting towards its orientation.
pub open spec fn prediction_for(tank: TankInfo, turn: Turn) -> Option<Position> {
    predicted(tank.known_positions@, tank.orientation, turn)
}

/// Where a tank with the given sightings and orientation is expected next; see
/// `prediction_for`.
pub open spec fn predicted(kp: Seq<(Position, Distance, Turn)>, orientation: Orientation, turn: Turn) -> Option<Position> {
    let seen = match first_on_turn(kp, turn) {
        Some(i) => walk_back(kp, i, turn as int),
        None => Seq::empty(),
    };
    if seen.len() >= 2 {
        Some(extrapolated(seen[0].0, seen[1].0))
    } else if kp.len() > 0 {
        Some(step_wrapping(kp[0].0, orientation))
    } else {
        None
    }
}

/// What the tracker knows of a tank: its id, whether it is alive, its sightings, its
/// orientation and where it was expected.
pub type TankView = (PlayerId, bool, Seq<(Position, Distance, Turn)>, Orientation, Option<Position>);

/// What the tracker knows of a tank.
pub open spec fn tank_view(t: TankInfo) -> TankView {
    (t.id, t.alive, t.known_positions@, t.orientation, t.prediction)
}

/// What the tracker knows of each tank, in order.
pub open spec fn tank_views(s: Seq<TankInfo>) -> Seq<TankView> {
    s.map_values(|t: TankInfo| tank_view(t))
}

/// What the tracker knows of a tank after one more sighting: the sighting added (the
/// oldest dropped beyond the most kept), the state seen, and where it was expected before.
pub open spec fn sighted(t: TankView, d: Details, pos: Position, turn: Turn, ref_point: Position) -> TankView {
    let grown = t.2.push((pos, distance_between(ref_point, pos), turn));
    (
        t.0,
        d.alive,
        if grown.len() > MAX_SIGHTINGS {
            grown.subrange(1, grown.len() as int)
        } else {
            grown
        },
        d.orientation,
        predicted(t.2, t.3, turn),
    )
}

/// What the tracker knows after a sighting: the tank's entry updated, or a new one added
/// last.
pub open spec fn after_sighting(s: Seq<TankView>, d: Details, pos: Position, turn: Turn, ref_point: Position) -> Seq<TankView> {
    if exists|i: int| 0 <= i < s.len() && #[trigger] s[i].0 == d.id {
        let i = choose|i: int| 0 <= i < s.len() && #[trigger] s[i].0 == d.id;
        s.update(i, sighted(s[i], d, pos, turn, ref_point))
    } else {
        s.push((d.id, d.alive, seq![(pos, distance_between(ref_point, pos), turn)], d.orientation, None))
    }
}

/// The square of the straight-line distance, capped at the largest `u128`.
pub open spec fn distance_between(a: Position, b: Position) -> Distance {
    if a.squared_distance(b) > u128::MAX {
        u128::MAX
    } else {
        a.squared_distance(b) as u128
    }
}

/// Whether a list of tanks holds one with the given id.
pub open spec fn has_id(tanks: Seq<TankInfo>, id: PlayerId) -> bool {
    exists|k: int| 0 <= k < tanks.len() && tanks[k].id == id
}

pub struct TanksTracker {
    tanks: Vec<TankInfo>,
    own_id: Option<PlayerId>,
}

/// What the tracker knows after noting the tank's own position: the sighting is added to
/// its own track when that track is empty or was last updated on the turn before.
pub open spec fn own_position_noted(
    s: Seq<TankView>,
    own_id: Option<PlayerId>,
    pos: Position,
    turn: Turn,
) -> Seq<TankView> {
    match own_id {
        None => s,
        Some(id) => if exists|i: int| 0 <= i < s.len() && #[trigger] s[i].0 == id {
            let i = choose|i: int| 0 <= i < s.len() && #[trigger] s[i].0 == id;
            let kp = s[i].2;
            if kp.len() == 0 || kp.last().2 == turn - 1 {
                s.update(i, (s[i].0, s[i].1, kp.push((pos, 0, turn)), s[i].3, s[i].4))
            } else {
                s
            }
        } else {
            s
        },
    }
}

impl TanksTracker {
    /// Each tank is tracked once.
    pub closed spec fn wf(self) -> bool {
        forall|i: int, j: int|
            0 <= i < j < self.tanks@.len() ==> (#[trigger] self.tanks@[i]).id != (
            #[trigger] self.tanks@[j]).id
    }

    pub closed spec fn tanks_spec(self) -> Seq<TankInfo> {
        self.tanks@
    }

    pub closed spec fn own_id_spec(self) -> Option<PlayerId> {
        self.own_id
    }

    /// The tracked tank with the given id.
    pub open spec fn tank_spec(self, id: PlayerId) -> Option<TankInfo> {
        if has_id(self.tanks_spec(), id) {
            Some(
                self.tanks_spec()[choose|i: int|
                    0 <= i < self.tanks_spec().len() && self.tanks_spec()[i].id == id],
            )
        } else {
            None
        }
    }

    pub fn default() -> (r: Self)
        ensures
            r.wf(),
            r.tanks_spec().len() == 0,
            r.own_id_spec() is None,
    {
        Self { tanks: Vec::new(), own_id: None }
    }

    pub fn new(own_id: PlayerId) -> (r: Self)
        ensures
            r.wf(),
            r.tanks_spec().len() == 0,
            r.own_id_spec() == Some(own_id),
    {
        Self { tanks: Vec::new(), own_id: Some(own_id) }
    }

    /// The index of the tracked tank with the given id.
    fn find(&self, id: PlayerId) -> (r: Option<usize>)
        requires
            self.wf(),
        ensures
            r matches Some(i) ==> i < self.tanks@.len() && self.tanks@[i as int].id == id
                && self.tank_spec(id) == Some(self.tanks@[i as int]),
            r is None ==> self.tank_spec(id) is None,
    {
        let mut i: usize = 0;
        while i < self.tanks.len()
            invariant
                i <= self.tanks@.len(),
                self.wf(),
                forall|j: int| 0 <= j < i ==> self.tanks@[j].id != id,
            decreases self.tanks@.len() - i,
        {
            if self.tanks[i].id == id {
                proof {
                    let c = choose|k: int|
                        0 <= k < self.tanks_spec().len() && self.tanks_spec()[k].id == id;
                    if c != i {
                        if c < i {
                            assert(self.tanks@[c].id != self.tanks@[i as int].id);
                        } else {
                            assert(self.tanks@[i as int].id != self.tanks@[c].id);
                        }
                    }
                }
                return Some(i);
            }
            i = i + 1;
        }
        None
    }

    /// Records the tank's own position when its track is empty or was updated on the
    /// turn before.
    pub fn update_own_id(&mut self, position: &Position, turn: Turn)
        requires
            old(self).wf(),
            turn > 0 || !(old(self).own_id_spec() matches Some(id) && old(self).tank_spec(id) matches Some(
                t,
            ) && t.known_positions@.len() > 0),
        ensures
            final(self).wf(),
            final(self).own_id_spec() == old(self).own_id_spec(),
            forall|id: PlayerId|
                #![trigger final(self).tank_spec(id)]
                (final(self).tank_spec(id) is Some) == (old(self).tank_spec(id) is Some),
            tank_views(final(self).tanks_spec()) == own_position_noted(
                tank_views(old(self).tanks_spec()),
                old(self).own_id_spec(),
                *position,
                turn,
            ),
    {
        if let Some(own_id) = self.own_id {
            let ghost vb = tank_views(self.tanks@);
            let found = self.find(own_id);
            proof {
                if found is None {
                    if exists|k: int| 0 <= k < vb.len() && #[trigger] vb[k].0 == own_id {
                        let k = choose|k: int| 0 <= k < vb.len() && #[trigger] vb[k].0 == own_id;
                        assert(self.tanks@[k].id == own_id);
                        assert(has_id(self.tanks@, own_id));
                    }
                }
            }
            if let Some(i) = found {
                let mut tank = self.tanks[i].clone();
                let n = tank.known_positions.len();
                let append = n == 0 || tank.known_positions[n - 1].2 == turn - 1;
                if append {
                    tank.known_positions.push((*position, 0, turn));
                }
                let ghost before = self.tanks@;
                self.tanks.set(i, tank);
                proof {
                    self.lemma_set_keeps_ids(before, i as int);
                    assert(vb[i as int].0 == own_id);
                    let c = choose|c: int| 0 <= c < vb.len() && #[trigger] vb[c].0 == own_id;
                    if c != i as int {
                        assert(before[c].id == own_id);
                        if c < i {
                            assert(before[c].id != before[i as int].id);
                        } else {
                            assert(before[i as int].id != before[c].id);
                        }
                    }
                    if append {
                        assert(tank_views(self.tanks@) =~= vb.update(
                            i as int,
                            (vb[i as int].0, vb[i as int].1, vb[i as int].2.push((*position, 0, turn)), vb[i as int].3, vb[i as int].4),
                        ));
                    } else {
                        assert(tank_views(self.tanks@) =~= vb);
                    }
                }
            }
        }
    }

    /// Replacing a tank by one with the same id keeps each id tracked once, and keeps
    /// the same ids tracked.
    proof fn lemma_set_keeps_ids(self, before: Seq<TankInfo>, i: int)
        requires
            0 <= i < before.len(),
            self.tanks@.len() == before.len(),
            forall|k: int| 0 <= k < before.len() && k != i ==> self.tanks@[k] == before[k],
            self.tanks@[i].id == before[i].id,
            forall|a: int, b: int|
                0 <= a < b < before.len() ==> (#[trigger] before[a]).id != (#[trigger] before[b]).id,
        ensures
            self.wf(),
            forall|id: PlayerId| #[trigger] has_id(self.tanks@, id) == has_id(before, id),
    {
        assert forall|a: int, b: int|
            0 <= a < b < self.tanks@.len() implies (#[trigger] self.tanks@[a]).id != (
            #[trigger] self.tanks@[b]).id by {
            assert(before[a].id != before[b].id);
        }
        assert forall|id: PlayerId| #[trigger] has_id(self.tanks@, id) == has_id(before, id) by {
            if has_id(before, id) {
                let k = choose|k: int| 0 <= k < before.len() && before[k].id == id;
                assert(self.tanks@[k].id == id);
            }
            if has_id(self.tanks@, id) {
                let k = choose|k: int| 0 <= k < self.tanks@.len() && self.tanks@[k].id == id;
                assert(before[k].id == id);
            }
        }
    }

    /// Records a sighting of a tank: a new tank is tracked from this sighting on; a known
    /// one gets the sighting added (the oldest dropped beyond ten), its state, and the
    /// position predicted before the sighting.
    pub fn track(&mut self, details: &Details, pos: Position, turn: Turn, ref_point: &Position)
        requires
            old(self).wf(),
        ensures
            final(self).wf(),
            tank_views(final(self).tanks_spec()) == after_sighting(
                tank_views(old(self).tanks_spec()),
                *details,
                pos,
                turn,
                *ref_point,
            ),
            final(self).own_id_spec() == old(self).own_id_spec(),
            old(self).tank_spec(details.id) is None ==> final(self).tank_spec(details.id) == Some(
                TankInfo {
                    id: details.id,
                    known_positions: final(self).tank_spec(details.id)->0.known_positions,
                    orientation: details.orientation,
                    prediction: None,
                    alive: details.alive,
                },
            ) && final(self).tank_spec(details.id)->0.known_positions@ == seq![
                (pos, distance_between(*ref_point, pos), turn),
            ],
            old(self).tank_spec(details.id) matches Some(t) ==> ({
                let grown = t.known_positions@.push((pos, distance_between(*ref_point, pos), turn));
                let u = final(self).tank_spec(details.id)->0;
                &&& final(self).tank_spec(details.id) is Some
                &&& u.alive == details.alive
                &&& u.orientation == details.orientation
                &&& u.prediction == prediction_for(t, turn)
                &&& u.known_positions@ == if grown.len() > MAX_SIGHTINGS {
                    grown.subrange(1, grown.len() as int)
                } else {
                    grown
                }
            }),
    {
        let distance = squared_distance(ref_point, &pos);

        // This is a new tank
        match self.find(details.id) {
            None => {
                let mut positions: Vec<(Position, Distance, Turn)> = Vec::new();
                positions.push((pos, distance, turn));
                let enemy = TankInfo {
                    id: details.id,
                    known_positions: positions,
                    orientation: details.orientation,
                    prediction: None,
                    alive: details.alive,
                };
                let ghost before = self.tanks@;
                self.tanks.push(enemy);
                proof {
                    assert forall|a: int, b: int|
                        0 <= a < b < self.tanks@.len() implies (#[trigger] self.tanks@[a]).id != (
                        #[trigger] self.tanks@[b]).id by {
                        if b == before.len() {
                            assert(self.tanks@[a] == before[a]);
                            assert(before[a].id != details.id);
                        } else {
                            assert(self.tanks@[a] == before[a] && self.tanks@[b] == before[b]);
                        }
                    }
                    self.lemma_tank_at(before.len() as int);
                    let vb = tank_views(before);
                    assert(!exists|k: int| 0 <= k < vb.len() && #[trigger] vb[k].0 == details.id) by {
                        if exists|k: int| 0 <= k < vb.len() && #[trigger] vb[k].0 == details.id {
                            let k = choose|k: int| 0 <= k < vb.len() && #[trigger] vb[k].0 == details.id;
                            assert(before[k].id == details.id);
                            assert(has_id(before, details.id));
                        }
                    }
                    assert(tank_views(self.tanks@) =~= vb.push(tank_view(enemy)));
                    assert(enemy.known_positions@ =~= seq![(pos, distance_between(*ref_point, pos), turn)]);
                }
            },
            Some(i) => {
                let prediction = self.predict_next_position(&details.id, &turn);
                let mut tank = self.tanks[i].clone();
                tank.alive = details.alive;
                tank.known_positions.push((pos, distance, turn));
                if tank.known_positions.len() > MAX_SIGHTINGS {
                    tank.known_positions.remove(0);
                }
                tank.orientation = details.orientation;
                tank.prediction = prediction;
                let ghost before = self.tanks@;
                self.tanks.set(i, tank);
                proof {
                    self.lemma_set_keeps_ids(before, i as int);
                    self.lemma_tank_at(i as int);
                    let vb = tank_views(before);
                    assert(vb[i as int].0 == details.id);
                    let c = choose|c: int| 0 <= c < vb.len() && #[trigger] vb[c].0 == details.id;
                    if c != i as int {
                        assert(before[c].id == details.id);
                        if c < i {
                            assert(before[c].id != before[i as int].id);
                        } else {
                            assert(before[i as int].id != before[c].id);
                        }
                    }
                    assert(tank_view(tank) == sighted(vb[i as int], *details, pos, turn, *ref_point));
                    assert(tank_views(self.tanks@) =~= vb.update(i as int, tank_view(tank)));
                }
            },
        }
    }

    /// The tank at an index is the one tracked under its id.
    proof fn lemma_tank_at(self, i: int)
        requires
            self.wf(),
            0 <= i < self.tanks@.len(),
        ensures
            self.tank_spec(self.tanks@[i].id) == Some(self.tanks@[i]),
    {
        let id = self.tanks@[i].id;
        let c = choose|k: int| 0 <= k < self.tanks_spec().len() && self.tanks_spec()[k].id == id;
        if c != i {
            if c < i {
                assert(self.tanks@[c].id != self.tanks@[i].id);
            } else {
                assert(self.tanks@[i].id != self.tanks@[c].id);
            }
        }
    }

    /// The living tanks other than the tank itself that were last seen on the given turn.
    pub fn enemies_found(&self, turn: Turn) -> (r: Vec<TankInfo>)
        requires
            self.own_id_spec() is Some,
        ensures
            r@.len() <= self.tanks_spec().len(),
            forall|i: int|
                0 <= i < r@.len() ==> (#[trigger] r@[i]).id != self.own_id_spec()->0 && r@[i].alive
                    && r@[i].known_positions@.len() > 0 && r@[i].known_positions@.last().2 == turn,
            forall|i: int|
                0 <= i < self.tanks_spec().len() && (#[trigger] self.tanks_spec()[i]).id
                    != self.own_id_spec()->0 && self.tanks_spec()[i].alive
                    && self.tanks_spec()[i].known_positions@.len() > 0
                    && self.tanks_spec()[i].known_positions@.last().2 == turn ==> exists|j: int|
                    0 <= j < r@.len() && r@[j].id == self.tanks_spec()[i].id,
    {
        let own_id = match self.own_id {
            Some(id) => id,
            None => 0,
        };
        let mut result: Vec<TankInfo> = Vec::new();
        let mut i: usize = 0;
        while i < self.tanks.len()
            invariant
                i <= self.tanks@.len(),
                own_id == self.own_id_spec()->0,
                result@.len() <= i,
                forall|k: int|
                    0 <= k < result@.len() ==> (#[trigger] result@[k]).id != own_id
                        && result@[k].alive && result@[k].known_positions@.len() > 0
                        && result@[k].known_positions@.last().2 == turn,
                forall|k: int|
                    0 <= k < i && (#[trigger] self.tanks@[k]).id != own_id && self.tanks@[k].alive
                        && self.tanks@[k].known_positions@.len() > 0
                        && self.tanks@[k].known_positions@.last().2 == turn ==> exists|j: int|
                        0 <= j < result@.len() && result@[j].id == self.tanks@[k].id,
            decreases self.tanks@.len() - i,
        {
            let enemy = &self.tanks[i];
            let n = enemy.known_positions.len();
            if enemy.id != own_id && enemy.alive && n > 0 {
                let last_turn = enemy.known_positions[n - 1].2;
                if last_turn == turn {
                    let copy = enemy.clone();
                    let ghost before = result@;
                    result.push(copy);
                    proof {
                        assert forall|k: int|
                            0 <= k < i && (#[trigger] self.tanks@[k]).id != own_id
                                && self.tanks@[k].alive && self.tanks@[k].known_positions@.len() > 0
                                && self.tanks@[k].known_positions@.last().2 == turn implies exists|
                            j: int,
                        |
                            0 <= j < result@.len() && result@[j].id == self.tanks@[k].id by {
                            let j = choose|j: int|
                                0 <= j < before.len() && before[j].id == self.tanks@[k].id;
                            assert(result@[j] == before[j]);
                        }
                    }
                    proof {
                        assert(result@[result@.len() - 1].id == self.tanks@[i as int].id);
                    }
                }
            }
            proof {
                assert forall|k: int|
                    0 <= k < i + 1 && (#[trigger] self.tanks@[k]).id != own_id && self.tanks@[k].alive
                        && self.tanks@[k].known_positions@.len() > 0
                        && self.tanks@[k].known_positions@.last().2 == turn implies exists|j: int|
                    0 <= j < result@.len() && result@[j].id == self.tanks@[k].id by {
                    if k == i {
                        assert(result@[result@.len() - 1].id == self.tanks@[k].id);
                    }
                }
            }
            i = i + 1;
        }
        result
    }
}

impl TanksTracker {
    /// Where the tank with the given id is expected next; see `prediction_for`.
    fn predict_next_position(&self, enemy_id: &PlayerId, turn: &Turn) -> (r: Option<Position>)
        requires
            self.wf(),
        ensures
            r == match self.tank_spec(*enemy_id) {
                Some(t) => prediction_for(t, *turn),
                None => None,
            },
    {
        if let Some(i) = self.find(*enemy_id) {
            let enemy = &self.tanks[i];
            if let Some(seen) = self.last_consecutive_tracks(enemy_id, turn) {
                if seen.len() >= 2 {
                    let latest_pos = seen[0].0;
                    let previous_pos = seen[1].0;
                    let dx = latest_pos.x.wrapping_sub(previous_pos.x);
                    let dy = latest_pos.y.wrapping_sub(previous_pos.y);

                    return Some(
                        Position { x: latest_pos.x.wrapping_add(dx), y: latest_pos.y.wrapping_add(dy) },
                    );
                }
            }
            if enemy.known_positions.len() > 0 {
                let pos = enemy.known_positions[0].0;
                // If we only have one position, use the orientation
                return Some(
                    match enemy.orientation {
                        Orientation::North => Position { x: pos.x, y: pos.y.wrapping_sub(1) },
                        Orientation::South => Position { x: pos.x, y: pos.y.wrapping_add(1) },
                        Orientation::East => Position { x: pos.x.wrapping_add(1), y: pos.y },
                        Orientation::West => Position { x: pos.x.wrapping_sub(1), y: pos.y },
                        Orientation::NorthEast => Position {
                            x: pos.x.wrapping_add(1),
                            y: pos.y.wrapping_sub(1),
                        },
                        Orientation::SouthEast => Position {
                            x: pos.x.wrapping_add(1),
                            y: pos.y.wrapping_add(1),
                        },
                        Orientation::SouthWest => Position {
                            x: pos.x.wrapping_sub(1),
                            y: pos.y.wrapping_add(1),
                        },
                        Orientation::NorthWest => Position {
                            x: pos.x.wrapping_sub(1),
                            y: pos.y.wrapping_sub(1),
                        },
                    },
                );
            }
        }
        None
    }

    /// The sightings of a tank on consecutive turns, going back from the first sighting on
    /// `from_turn`: none when the tank was not seen then.
    fn last_consecutive_tracks(&self, enemy_id: &PlayerId, from_turn: &Turn) -> (r: Option<
        Vec<(Position, Turn)>,
    >)
        requires
            self.wf(),
        ensures
            r matches Some(v) ==> self.tank_spec(*enemy_id) matches Some(t) && v@ == match first_on_turn(
                t.known_positions@,
                *from_turn,
            ) {
                Some(i) => walk_back(t.known_positions@, i, *from_turn as int),
                None => Seq::empty(),
            },
            r is None <==> self.tank_spec(*enemy_id) is None,
    {
        match self.find(*enemy_id) {
            None => None,
            Some(e) => {
                let kp = &self.tanks[e].known_positions;
                let mut start: usize = 0;
                while start < kp.len() && kp[start].2 != *from_turn
                    invariant
                        start <= kp@.len(),
                        forall|j: int| 0 <= j < start ==> #[trigger] kp@[j].2 != *from_turn,
                    decreases kp@.len() - start,
                {
                    start = start + 1;
                }
                if start == kp.len() {
                    return Some(Vec::new());
                }
                proof {
                    let c = first_on_turn(kp@, *from_turn)->0;
                    assert(kp@[start as int].2 == *from_turn);
                    if c != start {
                        if c < start {
                            assert(kp@[c].2 != *from_turn);
                        } else {
                            assert(kp@[start as int].2 != *from_turn);
                        }
                    }
                }
                let mut result: Vec<(Position, Turn)> = Vec::new();
                let mut expected_turn = *from_turn;
                let mut current_index = start;
                loop
                    invariant_except_break
                        current_index < kp@.len(),
                        result@ + walk_back(kp@, current_index as int, expected_turn as int)
                            == walk_back(kp@, start as int, *from_turn as int),
                    ensures
                        result@ == walk_back(kp@, start as int, *from_turn as int),
                    decreases current_index,
                {
                    let (pos, _, turn) = kp[current_index];

                    if turn != expected_turn {
                        // Caring only about consecutive turns
                        assert(result@ =~= result@ + Seq::<(Position, Turn)>::empty());
                        break;
                    }
                    let ghost before = result@;
                    result.push((pos, turn));
                    if expected_turn == 0 || current_index == 0 {
                        proof {
                            if expected_turn != 0 {
                                assert(walk_back(kp@, -1, expected_turn - 1) == Seq::<
                                    (Position, Turn),
                                >::empty());
                            }
                            assert(result@ =~= before + walk_back(
                                kp@,
                                current_index as int,
                                expected_turn as int,
                            ));
                        }
                        break;
                    }
                    proof {
                        assert(before + walk_back(kp@, current_index as int, expected_turn as int)
                            =~= result@ + walk_back(
                            kp@,
                            current_index - 1,
                            expected_turn - 1,
                        ));
                    }
                    expected_turn = expected_turn - 1;
                    current_index = current_index - 1;
                }
                Some(result)
            },
        }
    }
}

/// A copy of a list of sightings.
fn copy_sightings(v: &Vec<(Position, Distance, Turn)>) -> (r: Vec<(Position, Distance, Turn)>)
    ensures
        r@ == v@,
{
    let mut r: Vec<(Position, Distance, Turn)> = Vec::new();
    let mut i: usize = 0;
    while i < v.len()
        invariant
            i <= v@.len(),
            r@ == v@.take(i as int),
        decreases v@.len() - i,
    {
        r.push(v[i]);
        assert(v@.take(i + 1) =~= v@.take(i as int).push(v@[i as int]));
        i = i + 1;
    }
    assert(v@.take(v@.len() as int) =~= v@);
    r
}

/// The square of the straight-line distance between two positions, capped.
fn squared_distance(a: &Position, b: &Position) -> (r: Distance)
    ensures
        r == distance_between(*a, *b),
{
    let dx = crate::api::position::distance_along(a.x, b.x) as u128;
    let dy = crate::api::position::distance_along(a.y, b.y) as u128;
    assert(dx * dx <= 0xffff_ffff_ffff_fffe_0000_0000_0000_0001 && dy * dy
        <= 0xffff_ffff_ffff_fffe_0000_0000_0000_0001) by (nonlinear_arith)
        requires
            dx < 0x1_0000_0000_0000_0000,
            dy < 0x1_0000_0000_0000_0000,
    ;
    assert(dx * dx == (a.x - b.x) * (a.x - b.x) && dy * dy == (a.y - b.y) * (a.y - b.y))
        by (nonlinear_arith)
        requires
            dx == crate::api::position::abs(a.x - b.x),
            dy == crate::api::position::abs(a.y - b.y),
    ;
    (dx * dx).saturating_add(dy * dy)
}

} // verus!
