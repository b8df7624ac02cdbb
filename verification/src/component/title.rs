//! The title component: the game, the category and the number of attempts
//! of the run that a timer owns, and the game's icon when it has changed.

use crate::timing::timer::Timer;
use vstd::prelude::*;

verus! {

/// What a `State` stands for in contracts.
pub struct StateView {
    pub icon_change: Option<Seq<char>>,
    pub game: Seq<char>,
    pub category: Seq<char>,
    pub attempts: u32,
}

/// What the title component shows.
#[derive(Debug)]
pub struct State {
    /// The reference of the game's icon, if the icon has changed since the
    /// component last handed it out.
    pub icon_change: Option<String>,
    /// The name of the game.
    pub game: String,
    /// The name of the category.
    pub category: String,
    /// The number of attempts that the run has counted.
    pub attempts: u32,
}

impl View for State {
    type V = StateView;

    open spec fn view(&self) -> StateView {
        StateView {
            icon_change: match self.icon_change {
                Some(url) => Some(url@),
                None => None,
            },
            game: self.game@,
            category: self.category@,
            attempts: self.attempts,
        }
    }
}

/// The title component. It remembers the version of the game's icon that it
/// last handed out, so that the icon is handed out again only when it has
/// changed.
#[derive(Debug)]
pub struct Component {
    icon_id: usize,
}

impl Default for Component {
    fn default() -> (r: Component)
        ensures
            r.seen_icon_id() == 0,
    {
        Component { icon_id: 0 }
    }
}

impl Component {
    /// The version of the game's icon that the component last saw. It is 0
    /// where the component has seen none.
    pub closed spec fn seen_icon_id(&self) -> usize {
        self.icon_id
    }

    /// A component that has seen no icon yet.
    pub fn new() -> (r: Component)
        ensures
            r.seen_icon_id() == 0,
    {
        Component { icon_id: 0 }
    }

    /// What the component shows of `timer`. The icon is part of it only if
    /// its version differs from the one that the component last saw; the
    /// component then remembers the new version.
    pub fn state(&mut self, timer: &Timer) -> (r: State)
        ensures
            final(self).seen_icon_id() == timer@.run.game_icon.id,
            r@ == (StateView {
                icon_change: timer@.run.game_icon.change_since(old(self).seen_icon_id()),
                game: timer@.run.game_name,
                category: timer@.run.category_name,
                attempts: timer@.run.attempt_count,
            }),
    {
        let run = timer.run();
        let icon_change = match run.game_icon().check_for_change(&mut self.icon_id) {
            Some(url) => Some(url.clone()),
            None => None,
        };
        State {
            icon_change,
            game: run.game_name().clone(),
            category: run.category_name().clone(),
            attempts: run.attempt_count(),
        }
    }

    /// Forgets the icon that the component last saw, so that the next state
    /// hands out the icon again.
    pub fn remount(&mut self)
        ensures
            final(self).seen_icon_id() == 0,
    {
        self.icon_id = 0;
    }
}

} // verus!
