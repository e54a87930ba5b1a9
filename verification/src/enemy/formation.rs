//! Orbits for enemies, handed out so that a small group shares one path.

use crate::constants::{BASE_SPEED, FORMATION_MEMBER_MAX, SPAWN_MARGIN};
use crate::geometry::Vector2;
use crate::random::{draw_between, draw_ratio, thread_rng};
use crate::resource::WinSize;
use vstd::prelude::*;

verus! {

/// Smallest horizontal radius of an orbit (80 pixels).
pub const RADIUS_MIN: i32 = 960;

/// Bound above the horizontal radius of an orbit (150 pixels).
pub const RADIUS_MAX: i32 = 1800;

/// Vertical radius of every orbit (100 pixels).
pub const RADIUS_Y: i32 = 1200;

/// How far below a third of the window's height the centre of an orbit may
/// lie (50 pixels).
pub const PIVOT_MARGIN: i32 = 600;

/// The elliptical orbit of one enemy.
///
/// An enemy circles `pivot` on the ellipse with the radii `radius`. Where on
/// the ellipse it is heading is its phase, a count of angular steps. Phase
/// zero is the bearing of `start` as seen from `pivot`. Each step turns the
/// bearing by the way of one tick at `speed`, taken as an arc on the circle
/// of the smaller radius and divided by a quarter turn, in the sense of
/// `direction()`. In radians, at phase `k`:
///
/// ```text
/// bearing(k) = atan2(start.y - pivot.y, start.x - pivot.x)
///            + k * direction * (speed / TICK_RATE) / (min(radius.x, radius.y) * PI / 2)
/// point(k)   = (pivot.x + radius.x * cos(bearing(k)), pivot.y + radius.y * sin(bearing(k)))
/// ```
///
/// with lengths in pixels. The crate works in whole numbers and leaves the
/// trigonometry to the host: the host computes `point(k)` and hands it to
/// the movement system as the target of the enemy.
#[derive(Clone, Copy, Debug, PartialEq, Eq, Structural)]
pub struct Formation {
    /// Where the enemy enters.
    pub start: Vector2,
    /// The two radii of the ellipse.
    pub radius: Vector2,
    /// The centre of the ellipse.
    pub pivot: Vector2,
    /// Speed along the orbit, in pixels per second.
    pub speed: u32,
    /// Phase on the orbit: the number of angular steps the enemy has made
    /// from the bearing of `start`.
    pub angle: u64,
}

impl Formation {
    /// Both radii of an orbit are positive.
    pub open spec fn wf(&self) -> bool {
        self.radius.x > 0 && self.radius.y > 0
    }

    /// Tells whether both radii are positive.
    pub fn is_wf(&self) -> (b: bool)
        ensures
            b == self.wf(),
    {
        self.radius.x > 0 && self.radius.y > 0
    }

    /// Sense of rotation: `1` for an enemy that entered on the left, `-1` for
    /// one that entered on the right.
    pub open spec fn spec_direction(&self) -> i32 {
        if self.start.x < 0 {
            1i32
        } else {
            -1i32
        }
    }

    /// Sense of rotation, by the side of entry.
    #[verifier::when_used_as_spec(spec_direction)]
    pub fn direction(&self) -> (d: i32)
        ensures
            d == self.spec_direction(),
    {
        if self.start.x < 0 {
            1
        } else {
            -1
        }
    }

    /// The orbit built from one set of draws: the side of entry, the height
    /// of entry, the centre, and the horizontal radius.
    pub open spec fn spec_from_draws(
        win_size: WinSize,
        right: bool,
        y: int,
        pivot: Vector2,
        radius_x: int,
    ) -> Formation {
        let edge = win_size.w / 2 + SPAWN_MARGIN;
        Formation {
            start: Vector2 { x: (if right { edge } else { -edge }) as i32, y: y as i32 },
            radius: Vector2 { x: radius_x as i32, y: RADIUS_Y },
            pivot,
            speed: BASE_SPEED,
            angle: 0,
        }
    }

    /// What the draws for a window may be. The centre lies within a quarter
    /// of the window's width to either side of the middle; in a window too
    /// narrow for a quarter of its width to be a whole unit it lies in the
    /// middle.
    pub open spec fn draws_in_range(win_size: WinSize, y: int, pivot: Vector2, radius_x: int) -> bool {
        &&& -(win_size.h / 2 + SPAWN_MARGIN) <= y < win_size.h / 2 + SPAWN_MARGIN
        &&& if win_size.w / 4 == 0 {
            pivot.x == 0
        } else {
            -(win_size.w / 4) <= pivot.x < win_size.w / 4
        }
        &&& 0 <= pivot.y < win_size.h / 3 + PIVOT_MARGIN
        &&& RADIUS_MIN <= radius_x < RADIUS_MAX
    }

    /// An orbit such as `FormationMaker::make` draws for a window: it enters
    /// at the left or the right edge, outside the window by the spawn margin,
    /// and circles a centre in the upper middle of the window.
    pub open spec fn fresh_for(&self, win_size: WinSize) -> bool {
        exists|right: bool, y: int, pivot: Vector2, radius_x: int|
            Self::draws_in_range(win_size, y, pivot, radius_x) && *self == #[trigger] Self::spec_from_draws(
                win_size,
                right,
                y,
                pivot,
                radius_x,
            )
    }

    /// Builds the orbit from one set of draws.
    pub fn from_draws(win_size: &WinSize, right: bool, y: i32, pivot: Vector2, radius_x: i32) -> (r:
        Formation)
        requires
            win_size.wf(),
        ensures
            r == Self::spec_from_draws(*win_size, right, y as int, pivot, radius_x as int),
            radius_x > 0 ==> r.wf(),
    {
        let edge: i32 = win_size.w / 2 + SPAWN_MARGIN;
        Formation {
            start: Vector2 { x: if right { edge } else { -edge }, y },
            radius: Vector2 { x: radius_x, y: RADIUS_Y },
            pivot,
            speed: BASE_SPEED,
            angle: 0,
        }
    }
}

/// What a `FormationMaker` holds.
pub struct FormationMakerView {
    /// The orbit it is handing out, once it has drawn one.
    pub template: Option<Formation>,
    /// The number of enemies it has handed that orbit to.
    pub members: nat,
}

impl FormationMakerView {
    /// The current orbit, if there is one, is well formed.
    pub open spec fn wf(self) -> bool {
        self.template matches Some(template) ==> template.wf()
    }

    /// The current orbit can take one more enemy.
    pub open spec fn has_room(self) -> bool {
        self.template is Some && self.members < FORMATION_MEMBER_MAX
    }

    /// The orbit handed out next, where `fresh` is the orbit to start if
    /// the current one is full or missing.
    pub open spec fn next_formation(self, fresh: Formation) -> Formation {
        if self.has_room() {
            self.template->0
        } else {
            fresh
        }
    }

    /// The maker after handing out `self.next_formation(fresh)`.
    pub open spec fn after_make(self, fresh: Formation) -> FormationMakerView {
        if self.has_room() {
            FormationMakerView { template: self.template, members: self.members + 1 }
        } else {
            FormationMakerView { template: Some(fresh), members: 1 }
        }
    }
}

/// Hands out orbits, the same one to `FORMATION_MEMBER_MAX` enemies in a row.
#[derive(Clone, Copy, Debug)]
pub struct FormationMaker {
    current_template: Option<Formation>,
    current_members: u32,
}

impl View for FormationMaker {
    type V = FormationMakerView;

    closed spec fn view(&self) -> FormationMakerView {
        FormationMakerView { template: self.current_template, members: self.current_members as nat }
    }
}

impl Default for FormationMaker {
    /// A maker that has not drawn any orbit yet.
    fn default() -> (r: Self)
        ensures
            r@ == (FormationMakerView { template: None, members: 0 }),
    {
        FormationMaker { current_template: None, current_members: 0 }
    }
}

impl FormationMaker {
    /// Tells whether the current orbit, if there is one, is well formed.
    pub fn is_wf(&self) -> (b: bool)
        ensures
            b == self@.wf(),
    {
        match self.current_template {
            Some(template) => template.is_wf(),
            None => true,
        }
    }

    /// Tells whether the current orbit can take one more enemy.
    pub fn has_room(&self) -> (b: bool)
        ensures
            b == self@.has_room(),
    {
        self.current_template.is_some() && self.current_members < FORMATION_MEMBER_MAX
    }

    /// Hands out the current orbit once more.
    fn reuse(&mut self) -> (r: Formation)
        requires
            old(self)@.has_room(),
        ensures
            r == old(self)@.template->0,
            final(self)@ == (FormationMakerView {
                template: old(self)@.template,
                members: old(self)@.members + 1,
            }),
    {
        self.current_members += 1;
        self.current_template.unwrap()
    }

    /// Makes `fresh` the current orbit, with one member.
    fn start_group(&mut self, fresh: Formation)
        ensures
            final(self)@ == (FormationMakerView { template: Some(fresh), members: 1 }),
    {
        self.current_template = Some(fresh);
        self.current_members = 1;
    }

    /// Hands out an orbit, with `fresh` as the new orbit should one be due:
    /// the current orbit while it has room, else `fresh`, which then becomes
    /// the current orbit with one member.
    pub fn make_with(&mut self, fresh: Formation) -> (r: Formation)
        ensures
            r == old(self)@.next_formation(fresh),
            final(self)@ == old(self)@.after_make(fresh),
    {
        if self.has_room() {
            self.reuse()
        } else {
            self.start_group(fresh);
            fresh
        }
    }

    /// Hands out an orbit for the next enemy: the current orbit while it has
    /// room; else an orbit drawn at random for the window, which becomes the
    /// current orbit with one member.
    pub fn make(&mut self, win_size: &WinSize) -> (r: Formation)
        requires
            win_size.wf(),
        ensures
            r == old(self)@.next_formation(r),
            final(self)@ == old(self)@.after_make(r),
            !old(self)@.has_room() ==> r.fresh_for(*win_size) && r.wf(),
    {
        if self.has_room() {
            self.reuse()
        } else {
            let mut rng = thread_rng();
            let h_spawn: i32 = win_size.h / 2 + SPAWN_MARGIN;
            let right = draw_ratio(&mut rng, 1, 2);
            let y = draw_between(&mut rng, -h_spawn, h_spawn);
            let w_pivot: i32 = win_size.w / 4;
            let h_pivot: i32 = win_size.h / 3 + PIVOT_MARGIN;
            let pivot_x = if w_pivot == 0 {
                0
            } else {
                draw_between(&mut rng, -w_pivot, w_pivot)
            };
            let pivot_y = draw_between(&mut rng, 0, h_pivot);
            let pivot = Vector2 { x: pivot_x, y: pivot_y };
            let radius_x = draw_between(&mut rng, RADIUS_MIN, RADIUS_MAX);
            let fresh = Formation::from_draws(win_size, right, y, pivot, radius_x);
            assert(Formation::draws_in_range(*win_size, y as int, pivot, radius_x as int));
            self.start_group(fresh);
            fresh
        }
    }
}

/// For every window there is an orbit such as `make` draws, and each such
/// orbit is well formed.
pub proof fn lemma_fresh_orbits(win_size: WinSize)
    requires
        win_size.wf(),
    ensures
        exists|fresh: Formation| #[trigger] fresh.fresh_for(win_size),
        forall|fresh: Formation| #[trigger] fresh.fresh_for(win_size) ==> fresh.wf(),
{
    let origin = Vector2 { x: 0, y: 0 };
    let some = Formation::spec_from_draws(win_size, false, 0, origin, RADIUS_MIN as int);
    assert(Formation::draws_in_range(win_size, 0, origin, RADIUS_MIN as int));
    assert(some.fresh_for(win_size));
}

/// A maker that only ever starts well-formed orbits only ever hands out
/// well-formed orbits.
pub proof fn lemma_make_keeps_wf(maker: FormationMakerView, fresh: Formation)
    requires
        maker.wf(),
        fresh.wf(),
    ensures
        maker.next_formation(fresh).wf(),
        maker.after_make(fresh).wf(),
{
}

/// Two calls in a row share one orbit: if the maker still has room after
/// handing out an orbit, the next orbit it hands out is the same one,
/// whatever fresh orbits were on offer.
pub proof fn lemma_group_shares_orbit(maker: FormationMakerView, first: Formation, second: Formation)
    requires
        maker.after_make(first).has_room(),
    ensures
        maker.after_make(first).next_formation(second) == maker.next_formation(first),
{
}

/// A full group starts a new orbit: once `FORMATION_MEMBER_MAX` enemies
/// share the current orbit, the next one gets the fresh orbit, and is the
/// first member of its group.
pub proof fn lemma_full_group_starts_anew(maker: FormationMakerView, fresh: Formation)
    requires
        maker.members >= FORMATION_MEMBER_MAX,
    ensures
        maker.next_formation(fresh) == fresh,
        maker.after_make(fresh) == (FormationMakerView { template: Some(fresh), members: 1 }),
{
}

/// The orbits a maker hands out over a run of calls, where `drawn[i]` is the
/// fresh orbit on offer at call `i`.
pub open spec fn handed_out(maker: FormationMakerView, drawn: Seq<Formation>) -> Seq<Formation>
    decreases drawn.len(),
{
    if drawn.len() == 0 {
        Seq::empty()
    } else {
        seq![maker.next_formation(drawn[0])] + handed_out(
            maker.after_make(drawn[0]),
            drawn.subrange(1, drawn.len() as int),
        )
    }
}

/// The size of a group: a maker that starts empty hands the first fresh
/// orbit to exactly `FORMATION_MEMBER_MAX` enemies, and the fresh orbit of
/// the call after those to the next enemy.
pub proof fn lemma_group_size(drawn: Seq<Formation>)
    requires
        drawn.len() == FORMATION_MEMBER_MAX + 1,
    ensures
        handed_out(FormationMakerView { template: None, members: 0 }, drawn)
            == Seq::new(drawn.len(), |i: int| if i < FORMATION_MEMBER_MAX { drawn[0] } else { drawn[i] }),
{
    let empty = FormationMakerView { template: None, members: 0 };
    let expected = Seq::new(
        drawn.len(),
        |i: int| if i < FORMATION_MEMBER_MAX { drawn[0] } else { drawn[i] },
    );
    reveal_with_fuel(handed_out, 4);
    assert(handed_out(empty, drawn) =~= expected);
}

} // verus!
