//! The modes of the game and the ways between them.

use crate::resource::{GameState, Input};
use crate::world::{World, WorldView};
use vstd::prelude::*;

verus! {

impl WorldView {
    /// The title text is on screen exactly on the title screen, and the
    /// pause text exactly during the pause.
    pub open spec fn texts_follow_mode(self) -> bool {
        &&& self.welcome_text <==> self.state == GameState::Welcome
        &&& self.paused_text <==> self.state == GameState::Paused
    }

    /// The game after the title text was put on screen.
    pub open spec fn after_welcome(self) -> WorldView {
        WorldView { welcome_text: true, ..self }
    }

    /// The game after the title text was taken off screen.
    pub open spec fn after_welcome_exit(self) -> WorldView {
        WorldView { welcome_text: false, ..self }
    }

    /// The game after the pause text was put on screen.
    pub open spec fn after_paused(self) -> WorldView {
        WorldView { paused_text: true, ..self }
    }

    /// The game after the pause text was taken off screen.
    pub open spec fn after_paused_exit(self) -> WorldView {
        WorldView { paused_text: false, ..self }
    }

    /// The game after the keys were looked at on the title screen: the key
    /// that starts the game asks for the game to run.
    pub open spec fn after_welcome_input(self, input: Input) -> WorldView {
        if input.confirm {
            WorldView { next_state: Some(GameState::InGame), ..self }
        } else {
            self
        }
    }

    /// The game after the keys were looked at during the pause: the key that
    /// resumes asks for the game to run, for as long as it is held.
    pub open spec fn after_paused_input(self, input: Input) -> WorldView {
        if input.resume {
            WorldView { next_state: Some(GameState::InGame), ..self }
        } else {
            self
        }
    }

    /// The game after leaving the mode `exited`.
    pub open spec fn after_exit(self, exited: GameState) -> WorldView {
        match exited {
            GameState::Welcome => self.after_welcome_exit(),
            GameState::InGame => self,
            GameState::Paused => self.after_paused_exit(),
        }
    }

    /// The game after entering the mode `entered`.
    pub open spec fn after_enter(self, entered: GameState) -> WorldView {
        match entered {
            GameState::Welcome => self.after_welcome(),
            GameState::InGame => self,
            GameState::Paused => self.after_paused(),
        }
    }

    /// The game after the mode that was asked for has taken effect: the
    /// game is in that mode, nothing is asked for any more, the old mode was
    /// left and then the new one entered. Where no mode was asked for nothing
    /// changes.
    pub open spec fn after_state_transition(self) -> WorldView {
        match self.next_state {
            Some(entered) => (WorldView { state: entered, next_state: None, ..self }).after_exit(
                self.state,
            ).after_enter(entered),
            None => self,
        }
    }
}

/// Entering the title screen: puts the title text on screen.
pub fn welcome_system(world: &mut World)
    ensures
        final(world)@ == old(world)@.after_welcome(),
{
    world.welcome_text = true;
}

/// On the title screen: the key that starts the game asks for the game to
/// run.
pub fn welcome_input_system(world: &mut World, input: &Input)
    ensures
        final(world)@ == old(world)@.after_welcome_input(*input),
{
    if input.confirm {
        world.next_state = Some(GameState::InGame);
    }
}

/// Leaving the title screen: takes the title text off screen.
pub fn welcome_exit_system(world: &mut World)
    ensures
        final(world)@ == old(world)@.after_welcome_exit(),
{
    world.welcome_text = false;
}

/// Entering the pause: puts the pause text on screen.
pub fn paused_system(world: &mut World)
    ensures
        final(world)@ == old(world)@.after_paused(),
{
    world.paused_text = true;
}

/// During the pause: the key that resumes asks for the game to run.
pub fn paused_input_system(world: &mut World, input: &Input)
    ensures
        final(world)@ == old(world)@.after_paused_input(*input),
{
    if input.resume {
        world.next_state = Some(GameState::InGame);
    }
}

/// Leaving the pause: takes the pause text off screen.
pub fn paused_exit_system(world: &mut World)
    ensures
        final(world)@ == old(world)@.after_paused_exit(),
{
    world.paused_text = false;
}

/// Lets the mode that was asked for take effect: leaves the old mode, then
/// enters the new one.
pub fn apply_state_transition(world: &mut World)
    ensures
        final(world)@ == old(world)@.after_state_transition(),
{
    if let Some(entered) = world.next_state {
        let exited = world.state;
        world.state = entered;
        world.next_state = None;
        match exited {
            GameState::Welcome => welcome_exit_system(world),
            GameState::InGame => {},
            GameState::Paused => paused_exit_system(world),
        }
        match entered {
            GameState::Welcome => welcome_system(world),
            GameState::InGame => {},
            GameState::Paused => paused_system(world),
        }
    }
}

} // verus!
