//! A tank: a player's logic together with the state that the engine keeps for it.
use vstd::prelude::*;

use crate::{api::player::Player, engine::context::Context, text::push_char};

verus! {

pub const BAR_UNIT: u8 = 20;

/// The health bar drawn for a health: one `=` for every full twenty points, padded with
/// blanks to five characters.
pub open spec fn health_bar_spec(health: u8) -> Seq<char> {
    Seq::new((100u8 / BAR_UNIT) as nat, |i: int| if i < health / BAR_UNIT { '=' } else { ' ' })
}

pub struct Tank {
    context: Context,
    player: Box<dyn Player>,
}

impl Tank {
    pub closed spec fn context_spec(self) -> Context {
        self.context
    }

    pub fn new(player: Box<dyn Player>, context: Context) -> (r: Self)
        ensures
            r.context_spec() == context,
    {
        Self { context, player }
    }

    pub fn context(&self) -> (r: &Context)
        ensures
            *r == self.context_spec(),
    {
        &self.context
    }

    pub fn context_mut(&mut self) -> (r: &mut Context)
        ensures
            *r == old(self).context_spec(),
            final(self).context_spec() == *final(r),
    {
        &mut self.context
    }

    pub fn player(&self) -> &Box<dyn Player> {
        &self.player
    }

    pub fn player_mut(&mut self) -> (r: &mut Box<dyn Player>)
        ensures
            final(self).context_spec() == old(self).context_spec(),
    {
        &mut self.player
    }

    pub fn set_context(&mut self, context: Context)
        ensures
            final(self).context_spec() == context,
    {
        self.context = context;
    }

    pub fn health_bar(&self) -> (r: String)
        ensures
            r@ == health_bar_spec(self.context_spec().health_spec()),
    {
        let length = self.context.health() / BAR_UNIT;
        let mut bar = String::new();

        let mut i: u8 = 0;
        while i < 100 / BAR_UNIT
            invariant
                i <= 100u8 / BAR_UNIT,
                length == self.context_spec().health_spec() / BAR_UNIT,
                bar@ == health_bar_spec(self.context_spec().health_spec()).take(i as int),
            decreases 100u8 / BAR_UNIT - i,
        {
            let c = if i < length {
                '='
            } else {
                ' '
            };
            push_char(&mut bar, c);
            i = i + 1;
        }
        assert(bar@ == health_bar_spec(self.context_spec().health_spec()));

        bar
    }

    /// A tank that is still alive at the end of a game earns the survivor bonus.
    pub fn survivor_bonus(&mut self)
        requires
            old(self).context_spec().score_spec() + crate::engine::context::SCORE_SURVIVOR_BONUS
                <= u16::MAX,
        ensures
            final(self).context_spec().score_spec() == old(self).context_spec().score_spec() + (
            if old(self).context_spec().health_spec() > 0 {
                crate::engine::context::SCORE_SURVIVOR_BONUS
            } else {
                0
            }),
            final(self).context_spec().health_spec() == old(self).context_spec().health_spec(),
    {
        self.context.reward_survivor();
    }
}

} // verus!
