//! The constants of a game, the avatars of the players, and the final ranking.
use vstd::prelude::*;

use crate::api::player::{Avatar, PlayerId};

verus! {

pub const ENABLE_SHELL_ANIMATION: bool = false;

pub const GAME_TICK_DURATION_MSEC: u64 = 10;

pub const DEAD_AVATAR: Avatar = '💀';

pub const DEFAULT_AVATAR: Avatar = '👶';

/// The number of distinct avatars handed out before the default one.
pub const AVATAR_COUNT: usize = 18;

/// The avatar handed out at an index of the avatar list.
pub open spec fn avatar_at(index: int) -> Avatar {
    if index == 0 {
        '🙂'
    } else if index == 1 {
        '😈'
    } else if index == 2 {
        '👽'
    } else if index == 3 {
        '🤡'
    } else if index == 4 {
        '🤖'
    } else if index == 5 {
        '🎃'
    } else if index == 6 {
        '🐵'
    } else if index == 7 {
        '🐶'
    } else if index == 8 {
        '🐱'
    } else if index == 9 {
        '🦁'
    } else if index == 10 {
        '🐺'
    } else if index == 11 {
        '🐻'
    } else if index == 12 {
        '🐼'
    } else if index == 13 {
        '🦊'
    } else if index == 14 {
        '🐷'
    } else if index == 15 {
        '🐰'
    } else if index == 16 {
        '🐭'
    } else if index == 17 {
        '🐸'
    } else {
        DEFAULT_AVATAR
    }
}

/// The avatar of the player with the given id: players are counted from one, and those
/// beyond the avatar list share the default avatar.
pub fn avatar(player_id: usize) -> (r: Avatar)
    requires
        player_id >= 1,
    ensures
        r == avatar_at(player_id - 1),
        player_id > AVATAR_COUNT ==> r == DEFAULT_AVATAR,
        r != DEAD_AVATAR,
{
    let index = player_id - 1;
    if index < AVATAR_COUNT {
        match index {
            0 => '🙂',
            1 => '😈',
            2 => '👽',
            3 => '🤡',
            4 => '🤖',
            5 => '🎃',
            6 => '🐵',
            7 => '🐶',
            8 => '🐱',
            9 => '🦁',
            10 => '🐺',
            11 => '🐻',
            12 => '🐼',
            13 => '🦊',
            14 => '🐷',
            15 => '🐰',
            16 => '🐭',
            _ => '🐸',
        }
    } else {
        DEFAULT_AVATAR
    }
}

/// Whether `s` holds a score strictly above every later one.
pub open spec fn strictly_falling(s: Seq<u16>) -> bool {
    forall|i: int, j: int| 0 <= i < j < s.len() ==> s[i] > s[j]
}

/// The scores that occur in a list of players and their scores.
pub open spec fn scores_of(players: Seq<(PlayerId, u16)>) -> Set<u16> {
    Set::new(|v: u16| exists|i: int| 0 <= i < players.len() && #[trigger] players[i].1 == v)
}

/// The distinct scores of the players, highest first.
fn distinct_scores(players: &Vec<(PlayerId, u16)>) -> (r: Vec<u16>)
    ensures
        strictly_falling(r@),
        forall|i: int| 0 <= i < r@.len() ==> scores_of(players@).contains(#[trigger] r@[i]),
        forall|i: int| 0 <= i < players@.len() ==> r@.contains(#[trigger] players@[i].1),
        r@.len() <= players@.len(),
{
    let mut levels: Vec<u16> = Vec::new();
    let mut k: usize = 0;
    while k < players.len()
        invariant
            k <= players@.len(),
            levels@.len() <= k,
            strictly_falling(levels@),
            forall|i: int| 0 <= i < levels@.len() ==> scores_of(players@).contains(#[trigger] levels@[i]),
            forall|i: int| 0 <= i < k ==> levels@.contains(#[trigger] players@[i].1),
        decreases players@.len() - k,
    {
        let v = players[k].1;
        let mut at: usize = 0;
        while at < levels.len() && levels[at] > v
            invariant
                at <= levels@.len(),
                forall|i: int| 0 <= i < at ==> levels@[i] > v,
            decreases levels@.len() - at,
        {
            at = at + 1;
        }
        let ghost before = levels@;
        if at == levels.len() || levels[at] != v {
            levels.insert(at, v);
            proof {
                assert(levels@[at as int] == v);
                assert forall|i: int, j: int|
                    0 <= i < j < levels@.len() implies levels@[i] > levels@[j] by {
                    if j < at {
                        assert(levels@[i] == before[i] && levels@[j] == before[j]);
                    } else if j == at {
                        assert(levels@[i] == before[i]);
                    } else if i < at {
                        assert(levels@[i] == before[i] && levels@[j] == before[j - 1]);
                        assert(before[at as int] <= v);
                    } else if i == at {
                        assert(levels@[j] == before[j - 1]);
                    } else {
                        assert(levels@[i] == before[i - 1] && levels@[j] == before[j - 1]);
                    }
                }
                assert(scores_of(players@).contains(v)) by {
                    assert(players@[k as int].1 == v);
                }
                assert forall|i: int| 0 <= i < levels@.len() implies scores_of(
                    players@,
                ).contains(#[trigger] levels@[i]) by {
                    if i < at {
                        assert(levels@[i] == before[i]);
                    } else if i > at {
                        assert(levels@[i] == before[i - 1]);
                    }
                }
                assert forall|i: int| 0 <= i < k + 1 implies levels@.contains(
                    #[trigger] players@[i].1,
                ) by {
                    if i < k {
                        let w = choose|w: int| 0 <= w < before.len() && before[w] == players@[i].1;
                        if w < at {
                            assert(levels@[w] == before[w]);
                        } else {
                            assert(levels@[w + 1] == before[w]);
                        }
                    } else {
                        assert(levels@[at as int] == v);
                    }
                }
            }
        } else {
            proof {
                assert forall|i: int| 0 <= i < k + 1 implies levels@.contains(
                    #[trigger] players@[i].1,
                ) by {
                    if i == k {
                        assert(levels@[at as int] == v);
                    }
                }
            }
        }
        k = k + 1;
    }
    levels
}

/// Ranks the players of a finished game by their scores, the highest score first.
///
/// Each player gets, in the order given, one more than the number of distinct scores above
/// its own: equal scores share a rank, a higher score always ranks better, the best score
/// ranks first, and no rank is skipped.
pub fn rank_by_score(players: &Vec<(PlayerId, u16)>) -> (r: Vec<(PlayerId, u8)>)
    requires
        players@.len() < 256,
    ensures
        r@.len() == players@.len(),
        forall|i: int| 0 <= i < r@.len() ==> (#[trigger] r@[i]).0 == players@[i].0,
        forall|i: int, j: int|
            0 <= i < r@.len() && 0 <= j < r@.len() && players@[i].1 == players@[j].1 ==> (
            #[trigger] r@[i]).1 == (#[trigger] r@[j]).1,
        forall|i: int, j: int|
            0 <= i < r@.len() && 0 <= j < r@.len() && players@[i].1 > players@[j].1 ==> (
            #[trigger] r@[i]).1 < (#[trigger] r@[j]).1,
        forall|i: int|
            0 <= i < r@.len() ==> 1 <= (#[trigger] r@[i]).1 && ((r@[i].1 == 1) <==> forall|j: int|
                0 <= j < players@.len() ==> players@[j].1 <= players@[i].1),
        forall|i: int|
            0 <= i < r@.len() && (#[trigger] r@[i]).1 > 1 ==> exists|j: int|
                0 <= j < r@.len() && #[trigger] r@[j].1 == r@[i].1 - 1,
{
    let levels = distinct_scores(players);
    let mut result: Vec<(PlayerId, u8)> = Vec::new();
    let mut k: usize = 0;
    while k < players.len()
        invariant
            k <= players@.len() < 256,
            strictly_falling(levels@),
            levels@.len() <= players@.len(),
            forall|i: int| 0 <= i < levels@.len() ==> scores_of(players@).contains(#[trigger] levels@[i]),
            forall|i: int| 0 <= i < players@.len() ==> levels@.contains(#[trigger] players@[i].1),
            result@.len() == k,
            forall|i: int|
                0 <= i < k ==> (#[trigger] result@[i]).0 == players@[i].0 && result@[i].1
                    == levels@.index_of(players@[i].1) + 1,
        decreases players@.len() - k,
    {
        let v = players[k].1;
        let mut at: usize = 0;
        while levels[at] != v
            invariant
                at < levels@.len(),
                levels@.len() <= players@.len() < 256,
                strictly_falling(levels@),
                levels@.contains(v),
                forall|i: int| 0 <= i < at ==> levels@[i] != v,
            decreases levels@.len() - at,
        {
            assert(levels@[at as int] != v);
            at = at + 1;
            assert(at < levels@.len()) by {
                let w = choose|w: int| 0 <= w < levels@.len() && levels@[w] == v;
                assert(w >= at);
            }
        }
        proof {
            assert(levels@.index_of(v) == at as int) by {
                let i = levels@.index_of(v);
                assert(0 <= i < levels@.len() && levels@[i] == v);
                if i > at as int {
                    assert(levels@[at as int] > levels@[i]);
                }
            }
        }
        result.push((players[k].0, (at + 1) as u8));
        k = k + 1;
    }
    proof {
        assert forall|i: int| 0 <= i < players@.len() implies levels@.contains(players@[i].1) && 0
            <= #[trigger] levels@.index_of(players@[i].1) < levels@.len() && levels@[levels@.index_of(
            players@[i].1,
        )] == players@[i].1 by {
            assert(levels@.contains(players@[i].1));
        }
        assert forall|i: int, j: int|
            0 <= i < result@.len() && 0 <= j < result@.len() && players@[i].1 > players@[j].1
                implies (#[trigger] result@[i]).1 < (#[trigger] result@[j]).1 by {
            let a = levels@.index_of(players@[i].1);
            let b = levels@.index_of(players@[j].1);
            if a >= b {
                if a > b {
                    assert(levels@[b] > levels@[a]);
                }
            }
        }
        assert forall|i: int|
            0 <= i < result@.len() implies 1 <= (#[trigger] result@[i]).1 && ((result@[i].1 == 1)
                <==> forall|j: int|
                0 <= j < players@.len() ==> players@[j].1 <= players@[i].1) by {
            let a = levels@.index_of(players@[i].1);
            if a == 0 {
                assert forall|j: int| 0 <= j < players@.len() implies players@[j].1
                    <= players@[i].1 by {
                    let b = levels@.index_of(players@[j].1);
                    if b > 0 {
                        assert(levels@[0] > levels@[b]);
                    }
                }
            } else {
                assert(scores_of(players@).contains(levels@[0]));
                let w = choose|w: int| 0 <= w < players@.len() && #[trigger] players@[w].1 == levels@[0];
                assert(levels@[0] > levels@[a]);
                assert(!(players@[w].1 <= players@[i].1));
            }
        }
        assert forall|i: int|
            0 <= i < result@.len() && (#[trigger] result@[i]).1 > 1 implies exists|j: int|
                0 <= j < result@.len() && #[trigger] result@[j].1 == result@[i].1 - 1 by {
            let a = levels@.index_of(players@[i].1);
            assert(scores_of(players@).contains(levels@[a - 1]));
            let w = choose|w: int| 0 <= w < players@.len() && #[trigger] players@[w].1 == levels@[a
                - 1];
            assert(levels@.index_of(players@[w].1) == a - 1) by {
                let b = levels@.index_of(players@[w].1);
                if b != a - 1 {
                    if b < a - 1 {
                        assert(levels@[b] > levels@[a - 1]);
                    } else {
                        assert(levels@[a - 1] > levels@[b]);
                    }
                }
            }
            assert(result@[w].1 == result@[i].1 - 1);
        }
    }
    result
}

/// A key pressed while a game is shown.
#[derive(Clone, Copy, Debug, PartialEq, Eq, Structural)]
pub enum ControlKey {
    Esc,
    Up,
    Down,
    Char(char),
    Other,
}

/// What the game loop has to do after a key.
#[derive(Clone, Copy, Debug, PartialEq, Eq, Structural)]
pub enum ControlEffect {
    /// Stop the game.
    Quit,
    /// Use a new tick duration, in milliseconds.
    SetTick(u64),
    /// Turn the shell animation on or off.
    SetAnimation(bool),
    /// Nothing to tell the world.
    Nothing,
}

/// The controls of a game on screen: pausing, stepping one turn, the tick duration and the
/// shell animation.
#[derive(Clone, Copy, Debug, PartialEq, Eq, Structural)]
pub struct GameControls {
    pub pause: bool,
    pub next: bool,
    pub animation: bool,
    pub tick_ms: u64,
}

/// The controls after a key: Esc quits; Up and Down lengthen and shorten the tick by a
/// millisecond, within its range; A toggles the animation; N runs one more turn; P
/// toggles the pause. Other keys change nothing.
pub open spec fn controls_after_key(c: GameControls, key: ControlKey) -> (GameControls, ControlEffect) {
    match key {
        ControlKey::Esc => (c, ControlEffect::Quit),
        ControlKey::Up => {
            let t = if c.tick_ms < u64::MAX {
                (c.tick_ms + 1) as u64
            } else {
                c.tick_ms
            };
            (GameControls { tick_ms: t, ..c }, ControlEffect::SetTick(t))
        },
        ControlKey::Down => {
            let t = if c.tick_ms > 0 {
                (c.tick_ms - 1) as u64
            } else {
                0
            };
            (GameControls { tick_ms: t, ..c }, ControlEffect::SetTick(t))
        },
        ControlKey::Char(ch) => if ch == 'a' || ch == 'A' {
            (
                GameControls { animation: !c.animation, ..c },
                ControlEffect::SetAnimation(!c.animation),
            )
        } else if ch == 'n' || ch == 'N' {
            (GameControls { pause: false, next: true, ..c }, ControlEffect::Nothing)
        } else if ch == 'p' || ch == 'P' {
            (GameControls { pause: !c.pause, ..c }, ControlEffect::Nothing)
        } else {
            (c, ControlEffect::Nothing)
        },
        ControlKey::Other => (c, ControlEffect::Nothing),
    }
}

impl GameControls {
    /// The controls a game starts with: running, with the default tick and animation.
    pub fn new() -> (r: Self)
        ensures
            r == (GameControls {
                pause: false,
                next: false,
                animation: ENABLE_SHELL_ANIMATION,
                tick_ms: GAME_TICK_DURATION_MSEC,
            }),
    {
        GameControls {
            pause: false,
            next: false,
            animation: ENABLE_SHELL_ANIMATION,
            tick_ms: GAME_TICK_DURATION_MSEC,
        }
    }

    /// Takes a key into account; see `controls_after_key`.
    pub fn on_key(&mut self, key: ControlKey) -> (r: ControlEffect)
        ensures
            (*final(self), r) == controls_after_key(*old(self), key),
    {
        match key {
            ControlKey::Esc => ControlEffect::Quit,
            ControlKey::Up => {
                self.tick_ms = self.tick_ms.saturating_add(1);
                ControlEffect::SetTick(self.tick_ms)
            },
            ControlKey::Down => {
                self.tick_ms = self.tick_ms.saturating_sub(1);
                ControlEffect::SetTick(self.tick_ms)
            },
            ControlKey::Char(ch) => {
                if ch == 'a' || ch == 'A' {
                    self.animation = !self.animation;
                    ControlEffect::SetAnimation(self.animation)
                } else if ch == 'n' || ch == 'N' {
                    self.pause = false;
                    self.next = true;
                    ControlEffect::Nothing
                } else if ch == 'p' || ch == 'P' {
                    self.pause = !self.pause;
                    ControlEffect::Nothing
                } else {
                    ControlEffect::Nothing
                }
            },
            ControlKey::Other => ControlEffect::Nothing,
        }
    }

    /// After a turn was played: a single step pauses the game again.
    pub fn after_turn(&mut self)
        ensures
            *final(self) == if old(self).next {
                GameControls { pause: true, next: false, ..*old(self) }
            } else {
                *old(self)
            },
    {
        if self.next {
            self.pause = true;
            self.next = false;
        }
    }
}

/// Stepping one turn runs exactly one turn: after N the game runs, and once the turn is
/// played it is paused again.
pub proof fn lemma_step_runs_one_turn(c: GameControls)
    ensures
        !controls_after_key(c, ControlKey::Char('n')).0.pause,
        ({
            let after = controls_after_key(c, ControlKey::Char('n')).0;
            let stepped = if after.next {
                GameControls { pause: true, next: false, ..after }
            } else {
                after
            };
            stepped.pause && !stepped.next
        }),
{
}

/// Pressing P twice leaves the controls as they were.
pub proof fn lemma_pause_toggles_back(c: GameControls)
    ensures
        controls_after_key(controls_after_key(c, ControlKey::Char('p')).0, ControlKey::Char('p')).0
            == c,
{
}

} // verus!
