//! State that belongs to the whole game rather than to one entity.

use vstd::prelude::*;

verus! {

/// Size of the window, in world units. The origin is its centre.
#[derive(Clone, Copy, Debug, PartialEq, Eq, Structural)]
pub struct WinSize {
    pub w: i32,
    pub h: i32,
}

impl WinSize {
    /// A window has no negative side.
    pub open spec fn wf(&self) -> bool {
        0 <= self.w && 0 <= self.h
    }

    /// Tells whether the window is well formed.
    pub fn is_wf(&self) -> (b: bool)
        ensures
            b == self.wf(),
    {
        0 <= self.w && 0 <= self.h
    }
}

/// Number of enemies counted as alive. The spawn system stops at the cap.
#[derive(Clone, Copy, Debug, PartialEq, Eq, Structural)]
pub struct MaxEnemy(pub u32);

/// Whether the player's ship is in play, and when it was last shot down.
#[derive(Clone, Copy, Debug, PartialEq, Eq, Structural)]
pub struct PlayerState {
    /// The ship is in play.
    pub on: bool,
    /// Time of the last death in milliseconds, or `NEVER_SHOT`.
    pub last_shot: i64,
}

/// Value of `PlayerState::last_shot` while the ship has not been shot down
/// since it last entered play.
pub const NEVER_SHOT: i64 = -1;

impl Default for PlayerState {
    fn default() -> (r: Self)
        ensures
            r == (PlayerState { on: false, last_shot: NEVER_SHOT }),
    {
        PlayerState { on: false, last_shot: NEVER_SHOT }
    }
}

impl PlayerState {
    /// The ship was shot down at `time`.
    pub fn shot(&mut self, time: i64)
        ensures
            *final(self) == (PlayerState { on: false, last_shot: time }),
    {
        self.on = false;
        self.last_shot = time;
    }

    /// The ship entered play.
    pub fn spawned(&mut self)
        ensures
            *final(self) == (PlayerState { on: true, last_shot: NEVER_SHOT }),
    {
        self.on = true;
        self.last_shot = NEVER_SHOT;
    }
}

/// The modes of the game.
#[derive(Clone, Copy, Debug, PartialEq, Eq, Hash, Structural)]
pub enum GameState {
    /// The title screen.
    Welcome,
    /// The game is running.
    InGame,
    /// The game is frozen behind the pause overlay.
    Paused,
}

impl Default for GameState {
    fn default() -> (r: Self)
        ensures
            r == GameState::Welcome,
    {
        GameState::Welcome
    }
}

/// The score of the game in progress.
#[derive(Clone, Copy, Debug)]
pub struct GameData {
    score: u32,
}

impl View for GameData {
    type V = nat;

    /// The score.
    closed spec fn view(&self) -> nat {
        self.score as nat
    }
}

impl GameData {
    /// A game with no points yet.
    pub fn new() -> (r: Self)
        ensures
            r@ == 0,
    {
        Self { score: 0 }
    }

    /// The current score.
    pub fn get_score(&self) -> (score: u32)
        ensures
            score == self@,
    {
        self.score
    }

    /// Counts one more point.
    pub fn add_score(&mut self)
        requires
            old(self)@ < u32::MAX,
        ensures
            final(self)@ == old(self)@ + 1,
    {
        self.score += 1;
    }

    /// Takes the score back to zero.
    pub fn reset_score(&mut self)
        ensures
            final(self)@ == 0,
    {
        self.score = 0;
    }

    /// A score never leaves the range of its counter.
    pub proof fn lemma_score_bounded(&self)
        ensures
            self@ <= u32::MAX,
    {
    }
}

/// The clock the host hands to each tick.
#[derive(Clone, Copy, Debug, PartialEq, Eq, Structural)]
pub struct Time {
    /// Time since the program started, in milliseconds.
    pub elapsed: i64,
    /// Time since the previous tick, in milliseconds.
    pub delta: u32,
}

/// The keys the game listens to, as the host saw them this tick.
#[derive(Clone, Copy, Debug, PartialEq, Eq, Structural)]
pub struct Input {
    /// The key that steers left is held down.
    pub left: bool,
    /// The key that steers right is held down.
    pub right: bool,
    /// The pause key went down this tick.
    pub pause: bool,
    /// The key that starts the game went down this tick.
    pub confirm: bool,
    /// The key that resumes a paused game is held down.
    pub resume: bool,
    /// The fire key came up this tick.
    pub fire: bool,
}

/// The sounds the game asks the host to play.
#[derive(Clone, Copy, Debug, PartialEq, Eq, Structural)]
pub enum Sound {
    /// An enemy blew up.
    EnemyExplosion,
    /// The player's ship blew up.
    PlayerExplosion,
    /// The player fired.
    PlayerLaser,
}

} // verus!
