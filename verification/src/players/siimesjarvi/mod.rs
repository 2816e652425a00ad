use vstd::prelude::*;

use crate::api::{
    action::Action,
    aiming::Aiming,
    context::Context,
    direction::Direction,
    map_cell::{MapCell, Terrain},
    orientation::Orientation,
    player::{Details, Player, PlayerId},
    position::{Position, SCANNING_DISTANCE},
    rotation::Rotation,
    scan::{ScanResult, ScanType},
    world_size::MAX_WORLD_SIZE,
};

verus! {

pub type PlayerDetails = Details;

pub struct Siimesjarvi {
    strategy: Strategy,
}

pub const MIDDLE_COORDINATE: usize = SCANNING_DISTANCE / 2;

impl Siimesjarvi {
    /// Whether the player follows the advanced strategy, and that strategy's last action.
    pub closed spec fn advanced_with(self, previous: Action) -> bool {
        self.strategy matches Strategy::Advanced(a) && a.previous_action_spec() == previous
    }

    /// The last action of the advanced strategy, when the player follows it.
    pub closed spec fn last_action(self) -> Option<Action> {
        match self.strategy {
            Strategy::Advanced(a) => Some(a.previous_action_spec()),
            Strategy::Basic(_) => None,
        }
    }

    /// The orientation that the basic strategy fires at next, when the player follows it.
    pub closed spec fn basic_orientation(self) -> Option<Orientation> {
        match self.strategy {
            Strategy::Basic(b) => Some(b.orientation),
            Strategy::Advanced(_) => None,
        }
    }

    pub fn new() -> (r: Self)
        ensures
            r.advanced_with(Action::Idle),
            r.last_action() == Some(Action::Idle),
    {
        Self { strategy: Strategy::Advanced(AdvancedStrategy::new()) }
    }
}

impl Player for Siimesjarvi {
    /// Following the advanced strategy, scans all around, and after a scan shoots at a
    /// tank it shows or moves on; following the basic one, fires round the compass.
    fn act(&mut self, context: Context) -> (r: Action)
        ensures
            match old(self).last_action() {
                Some(p) => final(self).last_action() == Some(r) && r == if p is Scan {
                    match context.scan_spec() {
                        None => Action::Scan(ScanType::Omni),
                        Some(scan) => after_scan(scan, context),
                    }
                } else {
                    Action::Scan(ScanType::Omni)
                },
                None => final(self).last_action() is None && r == Action::Fire(
                    Aiming::Cardinal(old(self).basic_orientation()->0),
                ) && final(self).basic_orientation() == Some(
                    crate::api::orientation::turned(
                        old(self).basic_orientation()->0,
                        Rotation::Clockwise,
                    ),
                ),
            },
    {
        match &mut self.strategy {
            Strategy::Basic(x) => x.get_next_action(context),
            Strategy::Advanced(x) => x.get_next_action(&context),
        }
    }

    fn name(&self) -> (r: String)
        ensures
            r@ == "Joni Siimesjärvi 🐙"@,
    {
        "Joni Siimesjärvi 🐙".to_owned()
    }
}

pub enum Strategy {
    Basic(BasicStrategy),
    Advanced(AdvancedStrategy),
}

/// Basic strategy to get started
///
/// Blindly fire in all directions in clockwise pattern
pub struct BasicStrategy {
    pub orientation: Orientation,
}

impl BasicStrategy {
    /// Provides Orientation that should be used next
    ///
    /// Updates the next orientation so repeatedly calling this will eventually
    /// give all orientations
    pub fn get_next_orientation(&mut self) -> (r: Orientation)
        ensures
            r == old(self).orientation,
            final(self).orientation == crate::api::orientation::turned(
                old(self).orientation,
                Rotation::Clockwise,
            ),
    {
        match self.orientation {
            Orientation::North => {
                self.orientation = Orientation::NorthEast;
                Orientation::North
            },
            Orientation::NorthEast => {
                self.orientation = Orientation::East;
                Orientation::NorthEast
            },
            Orientation::East => {
                self.orientation = Orientation::SouthEast;
                Orientation::East
            },
            Orientation::SouthEast => {
                self.orientation = Orientation::South;
                Orientation::SouthEast
            },
            Orientation::South => {
                self.orientation = Orientation::SouthWest;
                Orientation::South
            },
            Orientation::SouthWest => {
                self.orientation = Orientation::West;
                Orientation::SouthWest
            },
            Orientation::West => {
                self.orientation = Orientation::NorthWest;
                Orientation::West
            },
            Orientation::NorthWest => {
                self.orientation = Orientation::North;
                Orientation::NorthWest
            },
        }
    }

    /// Fires a cardinal shot towards the next orientation of the round.
    pub fn get_next_action(&mut self, _context: Context) -> (r: Action)
        ensures
            r == Action::Fire(Aiming::Cardinal(old(self).orientation)),
            final(self).orientation == crate::api::orientation::turned(
                old(self).orientation,
                Rotation::Clockwise,
            ),
    {
        Action::Fire(Aiming::Cardinal(self.get_next_orientation()))
    }
}

/// Eight calls of `get_next_orientation` go once round the compass and back to the start.
pub proof fn lemma_basic_strategy_full_round(o: Orientation)
    ensures
        crate::api::orientation::turned_times(o, Rotation::Clockwise, 8) == o,
{
    crate::api::orientation::lemma_full_circle(o, Rotation::Clockwise);
}

pub struct AdvancedStrategy {
    previous_action: Action,
    world_map: Vec<MapCell>,
}

pub struct PlayerInMap {
    pub player_details: PlayerDetails,
    pub x: usize,
    pub y: usize,
}

/// A cell that holds a living player other than `my_player_id`.
pub open spec fn holds_other_player(cell: MapCell, my_player_id: PlayerId) -> bool {
    match cell {
        MapCell::Player(details, _) => details.id != my_player_id && details.alive,
        _ => false,
    }
}

/// The players found in the first `n` cells of a scan, read row by row.
pub open spec fn scanned_players(scan: ScanResult, n: nat) -> Seq<(PlayerDetails, usize, usize)>
    decreases n,
{
    if n == 0 {
        Seq::empty()
    } else {
        let k = (n - 1) as nat;
        let y = k / (SCANNING_DISTANCE as nat);
        let x = k % (SCANNING_DISTANCE as nat);
        let before = scanned_players(scan, k);
        match scan.cell(y as int, x as int) {
            MapCell::Player(details, _) => before.push((details, x as usize, y as usize)),
            _ => before,
        }
    }
}

/// The cell of a scan that a player would reach by a step from the middle.
pub open spec fn cell_safe(cell: MapCell) -> bool {
    match cell {
        MapCell::Terrain(Terrain::Lake) => false,
        MapCell::Terrain(Terrain::Swamp) => false,
        MapCell::Terrain(Terrain::Forest(..)) => false,
        _ => true,
    }
}

/// The step, in scan coordinates, of a move forward in an orientation.
pub open spec fn forward_step(o: Orientation) -> (int, int) {
    match o {
        Orientation::North => (0, -1),
        Orientation::NorthEast => (1, -1),
        Orientation::East => (1, 0),
        Orientation::SouthEast => (1, 1),
        Orientation::South => (0, 1),
        Orientation::SouthWest => (-1, 1),
        Orientation::West => (-1, 0),
        Orientation::NorthWest => (-1, -1),
    }
}

/// The first of the players at index `i` or later that has the given id.
pub open spec fn first_with_id(players: Seq<PlayerInMap>, id: PlayerId, i: int) -> Option<
    (isize, isize),
>
    decreases players.len() - i,
{
    if i < 0 || i >= players.len() {
        None
    } else if players[i].player_details.id == id {
        Some((players[i].x as isize, players[i].y as isize))
    } else {
        first_with_id(players, id, i + 1)
    }
}

/// The first of the players at index `i` or later that is alive and has another id.
pub open spec fn first_other_alive(players: Seq<PlayerInMap>, id: PlayerId, i: int) -> Option<
    (isize, isize),
>
    decreases players.len() - i,
{
    if i < 0 || i >= players.len() {
        None
    } else if players[i].player_details.id != id && players[i].player_details.alive {
        Some((players[i].x as isize, players[i].y as isize))
    } else {
        first_other_alive(players, id, i + 1)
    }
}

/// The players of a scan as the strategy lists them.
pub open spec fn as_entries(players: Seq<PlayerInMap>) -> Seq<(PlayerDetails, usize, usize)> {
    players.map_values(|p: PlayerInMap| (p.player_details, p.x, p.y))
}

/// The players of a scan, read row by row, as the strategy lists them.
pub open spec fn players_of(scan: ScanResult) -> Seq<PlayerInMap> {
    scanned_players(scan, (SCANNING_DISTANCE * SCANNING_DISTANCE) as nat).map_values(
        |e: (PlayerDetails, usize, usize)| PlayerInMap { player_details: e.0, x: e.1, y: e.2 },
    )
}

/// Whether a scan shows a living player other than `my_player_id`.
pub open spec fn other_player_seen(scan: ScanResult, my_player_id: PlayerId) -> bool {
    exists|y: int, x: int|
        0 <= y < SCANNING_DISTANCE && 0 <= x < SCANNING_DISTANCE && holds_other_player(
            #[trigger] scan.cell(y, x),
            my_player_id,
        )
}

/// The action that the advanced strategy takes on a scan: a shot at another living
/// player that it shows (idle when the cells cannot be told), or else a move.
pub open spec fn after_scan(scan: ScanResult, context: Context) -> Action {
    if other_player_seen(scan, context.details().id) {
        match shot_at_other(scan, context) {
            Some(a) => a,
            None => Action::Idle,
        }
    } else {
        wander(scan, context.details().orientation)
    }
}

/// The action that the advanced strategy takes after a scan, when a living player other
/// than itself shows in the scan: a positional shot at that player.
pub open spec fn shot_at_other(scan: ScanResult, context: Context) -> Option<Action> {
    let players = players_of(scan);
    let id = context.details().id;
    match (first_with_id(players, id, 0), first_other_alive(players, id, 0)) {
        (Some(me), Some(other)) => Some(
            Action::Fire(
                Aiming::Positional(
                    Position {
                        x: (context.position_spec().x + (other.0 - me.0)) as usize,
                        y: (context.position_spec().y + (other.1 - me.1)) as usize,
                    },
                ),
            ),
        ),
        _ => None,
    }
}

/// The action that the advanced strategy takes after a scan that shows no other living
/// player: a step forward if the cell ahead is safe, else a step back if the cell behind
/// is safe, else a clockwise turn.
pub open spec fn wander(scan: ScanResult, o: Orientation) -> Action {
    let m = MIDDLE_COORDINATE as int;
    let (fx, fy) = forward_step(o);
    if cell_safe(scan.cell(m + fy, m + fx)) {
        Action::Move(Direction::Forward)
    } else if cell_safe(scan.cell(m - fy, m - fx)) {
        Action::Move(Direction::Backward)
    } else {
        Action::Rotate(Rotation::Clockwise)
    }
}

impl AdvancedStrategy {
    pub closed spec fn previous_action_spec(self) -> Action {
        self.previous_action
    }

    pub fn new() -> (r: Self)
        ensures
            r.previous_action_spec() == Action::Idle,
    {
        Self {
            previous_action: Action::Idle,
            world_map: vec![MapCell::Unallocated; MAX_WORLD_SIZE * MAX_WORLD_SIZE],
        }
    }

    /// Whether the scan shows a living player other than `my_player_id`.
    pub fn are_other_players_in_scan_result(
        &self,
        my_player_id: PlayerId,
        scan_result: &ScanResult,
    ) -> (r: bool)
        ensures
            r == other_player_seen(*scan_result, my_player_id),
    {
        let mut y: usize = 0;
        while y < SCANNING_DISTANCE
            invariant
                y <= SCANNING_DISTANCE,
                forall|yy: int, x: int|
                    0 <= yy < y && 0 <= x < SCANNING_DISTANCE ==> !holds_other_player(
                        #[trigger] scan_result.cell(yy, x),
                        my_player_id,
                    ),
            decreases SCANNING_DISTANCE - y,
        {
            let mut x: usize = 0;
            while x < SCANNING_DISTANCE
                invariant
                    y < SCANNING_DISTANCE,
                    x <= SCANNING_DISTANCE,
                    forall|yy: int, xx: int|
                        0 <= yy < y && 0 <= xx < SCANNING_DISTANCE ==> !holds_other_player(
                            #[trigger] scan_result.cell(yy, xx),
                            my_player_id,
                        ),
                    forall|xx: int|
                        0 <= xx < x ==> !holds_other_player(
                            #[trigger] scan_result.cell(y as int, xx),
                            my_player_id,
                        ),
                decreases SCANNING_DISTANCE - x,
            {
                match scan_result.data[y][x] {
                    MapCell::Player(player_details, ..) => {
                        if player_details.id != my_player_id && player_details.alive {
                            assert(holds_other_player(
                                scan_result.cell(y as int, x as int),
                                my_player_id,
                            ));
                            return true;
                        }
                    },
                    _ => (),
                }
                x = x + 1;
            }
            y = y + 1;
        }
        false
    }

    /// Lists the players of a scan with their cells, row by row.
    pub fn get_players_from_scan_result(&self, scan_result: &ScanResult) -> (r: Vec<PlayerInMap>)
        ensures
            r@ == players_of(*scan_result),
            forall|i: int| 0 <= i < r@.len() ==> (#[trigger] r@[i]).x < SCANNING_DISTANCE && r@[i].y
                < SCANNING_DISTANCE,
    {
        let mut players: Vec<PlayerInMap> = Vec::new();
        let mut y: usize = 0;
        while y < SCANNING_DISTANCE
            invariant
                y <= SCANNING_DISTANCE,
                as_entries(players@) == scanned_players(*scan_result, (y * SCANNING_DISTANCE) as nat),
                forall|i: int| 0 <= i < players@.len() ==> (#[trigger] players@[i]).x < SCANNING_DISTANCE
                    && players@[i].y < SCANNING_DISTANCE,
            decreases SCANNING_DISTANCE - y,
        {
            let mut x: usize = 0;
            while x < SCANNING_DISTANCE
                invariant
                    y < SCANNING_DISTANCE,
                    x <= SCANNING_DISTANCE,
                    as_entries(players@) == scanned_players(
                        *scan_result,
                        (y * SCANNING_DISTANCE + x) as nat,
                    ),
                    forall|i: int| 0 <= i < players@.len() ==> (#[trigger] players@[i]).x < SCANNING_DISTANCE
                        && players@[i].y < SCANNING_DISTANCE,
                decreases SCANNING_DISTANCE - x,
            {
                let ghost k = (y * SCANNING_DISTANCE + x) as nat;
                proof {
                    assert(k / (SCANNING_DISTANCE as nat) == y && k % (SCANNING_DISTANCE as nat) == x)
                        by {
                        vstd::arithmetic::div_mod::lemma_fundamental_div_mod_converse(
                            k as int,
                            SCANNING_DISTANCE as int,
                            y as int,
                            x as int,
                        );
                    }
                }
                let ghost before = players@;
                // Coordinates are reversed as the array indexes
                match scan_result.data[y][x] {
                    MapCell::Player(player_details, ..) => {
                        players.push(PlayerInMap { player_details: player_details, x: x, y: y });
                        proof {
                            assert(as_entries(players@) =~= as_entries(before).push(
                                (player_details, x, y),
                            ));
                        }
                    },
                    _ => (),
                }
                x = x + 1;
            }
            y = y + 1;
        }
        proof {
            let e = scanned_players(*scan_result, (SCANNING_DISTANCE * SCANNING_DISTANCE) as nat);
            assert(as_entries(players@) == e);
            assert forall|i: int| 0 <= i < players@.len() implies players@[i] == players_of(
                *scan_result,
            )[i] by {
                assert(as_entries(players@)[i] == e[i]);
            }
            assert(players@ =~= players_of(*scan_result));
        }
        players
    }

    /// Where the player itself stands in the list, by its first entry.
    pub fn get_my_coordinates_from_submap(&self, my_player_id: PlayerId, players: &Vec<PlayerInMap>) -> (r:
        Option<(isize, isize)>)
        requires
            forall|i: int| 0 <= i < players@.len() ==> (#[trigger] players@[i]).x < SCANNING_DISTANCE
                && players@[i].y < SCANNING_DISTANCE,
        ensures
            r == first_with_id(players@, my_player_id, 0),
            r matches Some(p) ==> 0 <= p.0 < SCANNING_DISTANCE && 0 <= p.1 < SCANNING_DISTANCE,
    {
        let mut i: usize = 0;
        while i < players.len()
            invariant
                i <= players@.len(),
                forall|j: int| 0 <= j < players@.len() ==> (#[trigger] players@[j]).x < SCANNING_DISTANCE
                    && players@[j].y < SCANNING_DISTANCE,
                first_with_id(players@, my_player_id, 0) == first_with_id(
                    players@,
                    my_player_id,
                    i as int,
                ),
            decreases players@.len() - i,
        {
            let player = &players[i];
            if player.player_details.id == my_player_id {
                return Option::Some((player.x as isize, player.y as isize));
            }
            i = i + 1;
        }
        Option::None
    }

    /// Where the first living player other than the player itself stands in the list.
    pub fn get_any_other_player_coordinates_from_submap(
        &self,
        my_player_id: PlayerId,
        players: &Vec<PlayerInMap>,
    ) -> (r: Option<(isize, isize)>)
        requires
            forall|i: int| 0 <= i < players@.len() ==> (#[trigger] players@[i]).x < SCANNING_DISTANCE
                && players@[i].y < SCANNING_DISTANCE,
        ensures
            r == first_other_alive(players@, my_player_id, 0),
            r matches Some(p) ==> 0 <= p.0 < SCANNING_DISTANCE && 0 <= p.1 < SCANNING_DISTANCE,
    {
        let mut i: usize = 0;
        while i < players.len()
            invariant
                i <= players@.len(),
                forall|j: int| 0 <= j < players@.len() ==> (#[trigger] players@[j]).x < SCANNING_DISTANCE
                    && players@[j].y < SCANNING_DISTANCE,
                first_other_alive(players@, my_player_id, 0) == first_other_alive(
                    players@,
                    my_player_id,
                    i as int,
                ),
            decreases players@.len() - i,
        {
            let player = &players[i];
            if player.player_details.id != my_player_id && player.player_details.alive {
                return Option::Some((player.x as isize, player.y as isize));
            }
            i = i + 1;
        }
        Option::None
    }

    pub fn calculate_relative_position(
        &self,
        my_position: (isize, isize),
        other_position: (isize, isize),
    ) -> (r: (isize, isize))
        requires
            0 <= my_position.0 < SCANNING_DISTANCE,
            0 <= my_position.1 < SCANNING_DISTANCE,
            0 <= other_position.0 < SCANNING_DISTANCE,
            0 <= other_position.1 < SCANNING_DISTANCE,
        ensures
            r.0 == other_position.0 - my_position.0,
            r.1 == other_position.1 - my_position.1,
    {
        (other_position.0 - my_position.0, other_position.1 - my_position.1)
    }

    pub fn calculate_firing_position(&self, my_position: &Position, delta: (isize, isize)) -> (r:
        Position)
        requires
            my_position.x <= MAX_WORLD_SIZE,
            my_position.y <= MAX_WORLD_SIZE,
            -(SCANNING_DISTANCE as int) < delta.0 < SCANNING_DISTANCE,
            -(SCANNING_DISTANCE as int) < delta.1 < SCANNING_DISTANCE,
        ensures
            r == (Position {
                x: (my_position.x + delta.0) as usize,
                y: (my_position.y + delta.1) as usize,
            }),
    {
        let new_x = (my_position.x as isize + delta.0) as usize;
        let new_y = (my_position.y as isize + delta.1) as usize;
        Position { x: new_x, y: new_y }
    }

    pub fn handle_scan_result_with_other_players(&self, scan_result: &ScanResult, context: &Context) -> (r:
        Option<Action>)
        ensures
            r == shot_at_other(*scan_result, *context),
    {
        let players_in_scan_result = self.get_players_from_scan_result(scan_result);

        // Idle action should not be returned from here
        // As at this point we should always have other player + our own player in result
        let my_position = self.get_my_coordinates_from_submap(
            context.player_details().id,
            &players_in_scan_result,
        )?;

        let other_player_position = self.get_any_other_player_coordinates_from_submap(
            context.player_details().id,
            &players_in_scan_result,
        )?;

        let delta = self.calculate_relative_position(my_position, other_player_position);
        let pos = self.calculate_firing_position(context.position(), delta);

        Option::Some(Action::Fire(Aiming::Positional(pos)))
    }

    pub fn handle_scan_result_without_other_players(
        &self,
        scan_result: &ScanResult,
        context: &Context,
    ) -> (r: Action)
        ensures
            r == wander(*scan_result, context.details().orientation),
    {
        let potential_moves: ((isize, isize), (isize, isize)) = match &context.player_details().orientation {
            Orientation::North => ((0, -1), (0, 1)),
            Orientation::NorthEast => ((1, -1), (-1, 1)),
            Orientation::East => ((1, 0), (-1, 0)),
            Orientation::SouthEast => ((1, 1), (-1, -1)),
            Orientation::South => ((0, 1), (0, -1)),
            Orientation::SouthWest => ((-1, 1), (1, -1)),
            Orientation::West => ((-1, 0), (1, 0)),
            Orientation::NorthWest => ((-1, -1), (1, 1)),
        };

        let forward_x = MIDDLE_COORDINATE as isize + potential_moves.0.0;
        let forward_y = MIDDLE_COORDINATE as isize + potential_moves.0.1;
        if self.is_submap_cell_safe(scan_result, forward_x as usize, forward_y as usize) {
            return Action::Move(Direction::Forward);
        }
        let backward_x = MIDDLE_COORDINATE as isize + potential_moves.1.0;
        let backward_y = MIDDLE_COORDINATE as isize + potential_moves.1.1;
        if self.is_submap_cell_safe(scan_result, backward_x as usize, backward_y as usize) {
            Action::Move(Direction::Backward)
        } else {
            Action::Rotate(Rotation::Clockwise)
        }
    }

    pub fn is_submap_cell_safe(&self, scan_result: &ScanResult, x: usize, y: usize) -> (r: bool)
        requires
            x < SCANNING_DISTANCE,
            y < SCANNING_DISTANCE,
        ensures
            r == cell_safe(scan_result.cell(y as int, x as int)),
    {
        match scan_result.data[y][x] {
            MapCell::Terrain(Terrain::Lake) => false,
            MapCell::Terrain(Terrain::Swamp) => false,
            MapCell::Terrain(Terrain::Forest(..)) => false,
            _ => true,
        }
    }

    /// After a scan: scan again when nothing was scanned, shoot at another living player
    /// that the scan shows (idle when its cell cannot be told), or move on.
    pub fn get_next_action_when_scan_was_previous(&self, context: &Context) -> (r: Action)
        ensures
            r == match context.scan_spec() {
                None => Action::Scan(ScanType::Omni),
                Some(scan) => after_scan(scan, *context),
            },
    {
        match context.scanned_data() {
            None => Action::Scan(ScanType::Omni),
            Some(scan_result) => {
                if self.are_other_players_in_scan_result(context.player_details().id, scan_result) {
                    match self.handle_scan_result_with_other_players(scan_result, context) {
                        Some(a) => a,
                        None => Action::Idle,
                    }
                } else {
                    self.handle_scan_result_without_other_players(scan_result, context)
                }
            },
        }
    }

    /// Scans every other turn, and acts on the scan in between.
    pub fn get_next_action(&mut self, context: &Context) -> (r: Action)
        ensures
            !(old(self).previous_action_spec() is Scan) ==> r == Action::Scan(ScanType::Omni),
            old(self).previous_action_spec() is Scan ==> r == match context.scan_spec() {
                None => Action::Scan(ScanType::Omni),
                Some(scan) => after_scan(scan, *context),
            },
            final(self).previous_action_spec() == r,
    {
        let next_action: Action = match self.previous_action {
            Action::Scan(..) => self.get_next_action_when_scan_was_previous(context),
            _ => Action::Scan(ScanType::Omni),
        };
        self.previous_action = next_action;
        next_action
    }
}

/// Each player listed from the first `n` cells of a scan stands where the list says.
proof fn lemma_scanned_players_stand_there(scan: ScanResult, n: nat, i: int)
    requires
        n <= SCANNING_DISTANCE * SCANNING_DISTANCE,
        0 <= i < scanned_players(scan, n).len(),
    ensures
        ({
            let e = scanned_players(scan, n)[i];
            &&& e.1 < SCANNING_DISTANCE
            &&& e.2 < SCANNING_DISTANCE
            &&& scan.cell(e.2 as int, e.1 as int) matches MapCell::Player(d, _) && d == e.0
        }),
    decreases n,
{
    let k = (n - 1) as nat;
    let y = k / (SCANNING_DISTANCE as nat);
    let x = k % (SCANNING_DISTANCE as nat);
    let before = scanned_players(scan, k);
    assert(y < SCANNING_DISTANCE) by (nonlinear_arith)
        requires
            k < SCANNING_DISTANCE * SCANNING_DISTANCE,
            y == k / (SCANNING_DISTANCE as nat),
    ;
    if i < before.len() {
        lemma_scanned_players_stand_there(scan, k, i);
        match scan.cell(y as int, x as int) {
            MapCell::Player(details, _) => {
                assert(scanned_players(scan, n) == before.push((details, x as usize, y as usize)));
                assert(scanned_players(scan, n)[i] == before[i]);
            },
            _ => {},
        }
    } else {
        match scan.cell(y as int, x as int) {
            MapCell::Player(details, _) => {
                assert(scanned_players(scan, n) == before.push((details, x as usize, y as usize)));
            },
            _ => {},
        }
    }
}

/// The first player from index `i` on with an id stands in the list with that id.
proof fn lemma_first_with_id_found(players: Seq<PlayerInMap>, id: PlayerId, i: int)
    requires
        first_with_id(players, id, i) is Some,
    ensures
        exists|j: int|
            i <= j < players.len() && players[j].player_details.id == id && first_with_id(players, id, i)
                == Some((players[j].x as isize, players[j].y as isize)),
    decreases players.len() - i,
{
    if !(players[i].player_details.id == id) {
        lemma_first_with_id_found(players, id, i + 1);
    } else {
        assert(players[i].player_details.id == id);
    }
}

/// The first living player from index `i` on with another id stands in the list so.
proof fn lemma_first_other_alive_found(players: Seq<PlayerInMap>, id: PlayerId, i: int)
    requires
        first_other_alive(players, id, i) is Some,
    ensures
        exists|j: int|
            i <= j < players.len() && players[j].player_details.id != id && players[j].player_details.alive
                && first_other_alive(players, id, i) == Some((players[j].x as isize, players[j].y as isize)),
    decreases players.len() - i,
{
    if !(players[i].player_details.id != id && players[i].player_details.alive) {
        lemma_first_other_alive_found(players, id, i + 1);
    } else {
        assert(players[i].player_details.id != id && players[i].player_details.alive);
    }
}

/// The positional shot after a scan aims at the cell of the world where another living
/// player stands: the tank's own position moved by the offset, in the scan, from the cell
/// that shows the tank itself to the cell that shows that player. So the target lies on
/// the same side of the tank as the player seen.
pub proof fn lemma_shot_at_the_player_seen(scan: ScanResult, context: Context)
    requires
        shot_at_other(scan, context) is Some,
    ensures
        exists|mx: int, my: int, ox: int, oy: int|
            {
                &&& 0 <= mx < SCANNING_DISTANCE
                &&& 0 <= my < SCANNING_DISTANCE
                &&& 0 <= ox < SCANNING_DISTANCE
                &&& 0 <= oy < SCANNING_DISTANCE
                &&& (#[trigger] scan.cell(my, mx) matches MapCell::Player(d, _)
                    && d.id == context.details().id)
                &&& (#[trigger] scan.cell(oy, ox) matches MapCell::Player(e, _)
                    && e.id != context.details().id && e.alive)
                &&& shot_at_other(scan, context) == Some(
                    Action::Fire(
                        Aiming::Positional(
                            Position {
                                x: (context.position_spec().x + ox - mx) as usize,
                                y: (context.position_spec().y + oy - my) as usize,
                            },
                        ),
                    ),
                )
            },
{
    let players = players_of(scan);
    let id = context.details().id;
    let entries = scanned_players(scan, (SCANNING_DISTANCE * SCANNING_DISTANCE) as nat);
    lemma_first_with_id_found(players, id, 0);
    lemma_first_other_alive_found(players, id, 0);
    let j = choose|j: int|
        0 <= j < players.len() && players[j].player_details.id == id && first_with_id(players, id, 0)
            == Some((players[j].x as isize, players[j].y as isize));
    let k = choose|k: int|
        0 <= k < players.len() && players[k].player_details.id != id && players[k].player_details.alive
            && first_other_alive(players, id, 0) == Some((players[k].x as isize, players[k].y as isize));
    lemma_scanned_players_stand_there(scan, (SCANNING_DISTANCE * SCANNING_DISTANCE) as nat, j);
    lemma_scanned_players_stand_there(scan, (SCANNING_DISTANCE * SCANNING_DISTANCE) as nat, k);
    assert(players[j].x == entries[j].1 && players[j].y == entries[j].2 && players[j].player_details == entries[j].0);
    assert(players[k].x == entries[k].1 && players[k].y == entries[k].2 && players[k].player_details == entries[k].0);
    let mx = players[j].x as int;
    let my = players[j].y as int;
    let ox = players[k].x as int;
    let oy = players[k].y as int;
    assert(scan.cell(my, mx) matches MapCell::Player(d, _) && d.id == id);
    assert(scan.cell(oy, ox) matches MapCell::Player(e, _) && e.id != id && e.alive);
}

/// Every player that the first `n` cells of a scan show, read row by row, is listed.
proof fn lemma_scanned_players_complete(scan: ScanResult, n: nat, x: int, y: int)
    requires
        0 <= x < SCANNING_DISTANCE,
        0 <= y < SCANNING_DISTANCE,
        y * SCANNING_DISTANCE + x < n <= SCANNING_DISTANCE * SCANNING_DISTANCE,
        scan.cell(y, x) is Player,
    ensures
        exists|i: int|
            0 <= i < scanned_players(scan, n).len() && (scan.cell(y, x) matches MapCell::Player(d, _)
                && #[trigger] scanned_players(scan, n)[i] == (d, x as usize, y as usize)),
    decreases n,
{
    let k = (n - 1) as nat;
    let before = scanned_players(scan, k);
    let d = match scan.cell(y, x) {
        MapCell::Player(d, _) => d,
        _ => arbitrary(),
    };
    if k == y * SCANNING_DISTANCE + x {
        assert(k / (SCANNING_DISTANCE as nat) == y && k % (SCANNING_DISTANCE as nat) == x) by (nonlinear_arith)
            requires
                k == y * 15 + x,
                0 <= x < 15,
                0 <= y,
                SCANNING_DISTANCE == 15,
        ;
        let i = before.len() as int;
        assert(scanned_players(scan, n) == before.push((d, x as usize, y as usize)));
        assert(scanned_players(scan, n)[i] == (d, x as usize, y as usize));
        assert(0 <= i < scanned_players(scan, n).len() && (scan.cell(y, x) matches MapCell::Player(dd, _)
            && scanned_players(scan, n)[i] == (dd, x as usize, y as usize)));
    } else {
        lemma_scanned_players_complete(scan, k, x, y);
        let i = choose|i: int|
            0 <= i < before.len() && (scan.cell(y, x) matches MapCell::Player(d, _)
                && #[trigger] before[i] == (d, x as usize, y as usize));
        let yy = k / (SCANNING_DISTANCE as nat);
        let xx = k % (SCANNING_DISTANCE as nat);
        match scan.cell(yy as int, xx as int) {
            MapCell::Player(details, _) => {
                assert(scanned_players(scan, n) == before.push((details, xx as usize, yy as usize)));
                assert(scanned_players(scan, n)[i] == before[i]);
            },
            _ => {
                assert(scanned_players(scan, n) == before);
            },
        }
        assert(0 <= i < scanned_players(scan, n).len() && (scan.cell(y, x) matches MapCell::Player(dd, _)
            && scanned_players(scan, n)[i] == (dd, x as usize, y as usize)));
    }
}

/// A player with the id in the list from index `i` on makes the search find one.
proof fn lemma_first_with_id_exists(players: Seq<PlayerInMap>, id: PlayerId, i: int, j: int)
    requires
        0 <= i <= j < players.len(),
        players[j].player_details.id == id,
    ensures
        first_with_id(players, id, i) is Some,
    decreases j - i,
{
    if players[i].player_details.id != id {
        lemma_first_with_id_exists(players, id, i + 1, j);
    }
}

/// A living player with another id in the list from index `i` on makes the search find
/// one.
proof fn lemma_first_other_alive_exists(players: Seq<PlayerInMap>, id: PlayerId, i: int, j: int)
    requires
        0 <= i <= j < players.len(),
        players[j].player_details.id != id && players[j].player_details.alive,
    ensures
        first_other_alive(players, id, i) is Some,
    decreases j - i,
{
    if !(players[i].player_details.id != id && players[i].player_details.alive) {
        lemma_first_other_alive_exists(players, id, i + 1, j);
    }
}

/// A scan leads to a shot exactly when it shows the tank itself and another living
/// player.
pub proof fn lemma_shot_exactly_when_both_are_seen(scan: ScanResult, context: Context)
    ensures
        shot_at_other(scan, context) is Some <==> ((exists|mx: int, my: int|
            0 <= mx < SCANNING_DISTANCE && 0 <= my < SCANNING_DISTANCE && (#[trigger] scan.cell(
                my,
                mx,
            ) matches MapCell::Player(d, _) && d.id == context.details().id)) && (exists|
            ox: int,
            oy: int,
        |
            0 <= ox < SCANNING_DISTANCE && 0 <= oy < SCANNING_DISTANCE && (#[trigger] scan.cell(
                oy,
                ox,
            ) matches MapCell::Player(e, _) && e.id != context.details().id && e.alive))),
{
    let id = context.details().id;
    let players = players_of(scan);
    let n = (SCANNING_DISTANCE * SCANNING_DISTANCE) as nat;
    let entries = scanned_players(scan, n);
    if shot_at_other(scan, context) is Some {
        lemma_shot_at_the_player_seen(scan, context);
    }
    if (exists|mx: int, my: int|
        0 <= mx < SCANNING_DISTANCE && 0 <= my < SCANNING_DISTANCE && (#[trigger] scan.cell(
            my,
            mx,
        ) matches MapCell::Player(d, _) && d.id == id)) && (exists|ox: int, oy: int|
        0 <= ox < SCANNING_DISTANCE && 0 <= oy < SCANNING_DISTANCE && (#[trigger] scan.cell(
            oy,
            ox,
        ) matches MapCell::Player(e, _) && e.id != id && e.alive)) {
        let (mx, my) = choose|mx: int, my: int|
            0 <= mx < SCANNING_DISTANCE && 0 <= my < SCANNING_DISTANCE && (#[trigger] scan.cell(
                my,
                mx,
            ) matches MapCell::Player(d, _) && d.id == id);
        let (ox, oy) = choose|ox: int, oy: int|
            0 <= ox < SCANNING_DISTANCE && 0 <= oy < SCANNING_DISTANCE && (#[trigger] scan.cell(
                oy,
                ox,
            ) matches MapCell::Player(e, _) && e.id != id && e.alive);
        assert(my * 15 + mx < 225) by (nonlinear_arith)
            requires
                0 <= mx < 15,
                0 <= my < 15,
        ;
        assert(oy * 15 + ox < 225) by (nonlinear_arith)
            requires
                0 <= ox < 15,
                0 <= oy < 15,
        ;
        lemma_scanned_players_complete(scan, n, mx, my);
        lemma_scanned_players_complete(scan, n, ox, oy);
        let i = choose|i: int|
            0 <= i < entries.len() && (scan.cell(my, mx) matches MapCell::Player(d, _)
                && #[trigger] entries[i] == (d, mx as usize, my as usize));
        let j = choose|j: int|
            0 <= j < entries.len() && (scan.cell(oy, ox) matches MapCell::Player(d, _)
                && #[trigger] entries[j] == (d, ox as usize, oy as usize));
        assert(players[i].player_details == entries[i].0);
        assert(players[j].player_details == entries[j].0);
        lemma_first_with_id_exists(players, id, 0, i);
        lemma_first_other_alive_exists(players, id, 0, j);
    }
}

/// A step forward in the scan goes the way the tank faces: it is the step of the world
/// towards that orientation.
pub proof fn lemma_forward_step_faces_the_orientation(o: Orientation)
    ensures
        forward_step(o) == (crate::api::position::step_x(o), crate::api::position::step_y(o)),
{
}

} // verus!
