//! Tracking of touchscreen contacts across frames.
//!
//! Raw per-frame touch events (a finger started, moved, ended, or was
//! cancelled) are folded into a set of live contacts, keyed by finger id,
//! together with the transient sets of contacts that just changed this frame.
//! Positions are fixed-point window coordinates; forces are fixed-point
//! fractions of the hardware's maximum.

use vstd::prelude::*;

use crate::fix::sat_sub;
use crate::fix::sub_sat;
use crate::geom::Vec2;

verus! {

/// What a raw touch event reports happened to the finger.
#[derive(Clone, Copy, Debug, PartialEq, Eq, Structural)]
pub enum TouchPhase {
    Started,
    Moved,
    Ended,
    Cancelled,
}

/// The pressure of a touch, as the hardware reports it.
#[derive(Clone, Copy, Debug, PartialEq, Eq)]
pub enum TouchForce {
    /// A calibrated reading: the force, the maximum possible force, and,
    /// where the device reports one, the stylus altitude angle.
    Calibrated { force: i64, max_possible_force: i64, altitude_angle: Option<i64> },
    /// A reading already normalised into `[0, 1]`.
    Normalized(i64),
}

/// One raw touch event, as the windowing backend hands it over.
#[derive(Clone, Copy, Debug, PartialEq, Eq)]
pub struct TouchInput {
    pub phase: TouchPhase,
    pub position: Vec2,
    pub force: Option<TouchForce>,
    pub id: u64,
}

/// A live touch contact: where it started, where it was last frame, and
/// where it is now, with the force sampled at each of those times.
#[derive(Clone, Copy, Debug, PartialEq, Eq)]
pub struct Touch {
    /// The id of the touch input.
    pub id: u64,
    /// The starting position of the touch input.
    pub start_position: Vec2,
    /// The starting force of the touch input.
    pub start_force: Option<TouchForce>,
    /// The previous position of the touch input.
    pub previous_position: Vec2,
    /// The previous force of the touch input.
    pub previous_force: Option<TouchForce>,
    /// The current position of the touch input.
    pub position: Vec2,
    /// The current force of the touch input.
    pub force: Option<TouchForce>,
}

impl Touch {
    /// The movement since the previous frame: current minus previous
    /// position.
    pub fn delta(&self) -> (d: Vec2)
        ensures
            d.x as int == sat_sub(self.position.x as int, self.previous_position.x as int),
            d.y as int == sat_sub(self.position.y as int, self.previous_position.y as int),
    {
        Vec2 {
            x: sub_sat(self.position.x, self.previous_position.x),
            y: sub_sat(self.position.y, self.previous_position.y),
        }
    }

    /// The movement since the touch began: current minus start position.
    pub fn distance(&self) -> (d: Vec2)
        ensures
            d.x as int == sat_sub(self.position.x as int, self.start_position.x as int),
            d.y as int == sat_sub(self.position.y as int, self.start_position.y as int),
    {
        Vec2 {
            x: sub_sat(self.position.x, self.start_position.x),
            y: sub_sat(self.position.y, self.start_position.y),
        }
    }

    /// Returns the `id` of the touch.
    pub fn id(&self) -> (r: u64)
        ensures
            r == self.id,
    {
        self.id
    }

    /// Returns the `start_position` of the touch.
    pub fn start_position(&self) -> (r: Vec2)
        ensures
            r == self.start_position,
    {
        self.start_position
    }

    /// Returns the `start_force` of the touch.
    pub fn start_force(&self) -> (r: Option<TouchForce>)
        ensures
            r == self.start_force,
    {
        self.start_force
    }

    /// Returns the `previous_position` of the touch.
    pub fn previous_position(&self) -> (r: Vec2)
        ensures
            r == self.previous_position,
    {
        self.previous_position
    }

    /// Returns the `previous_force` of the touch.
    pub fn previous_force(&self) -> (r: Option<TouchForce>)
        ensures
            r == self.previous_force,
    {
        self.previous_force
    }

    /// Returns the current `position` of the touch.
    pub fn position(&self) -> (r: Vec2)
        ensures
            r == self.position,
    {
        self.position
    }

    /// Returns the current `force` of the touch.
    pub fn force(&self) -> (r: Option<TouchForce>)
        ensures
            r == self.force,
    {
        self.force
    }

    /// A fresh contact made from a raw event: it starts, was, and is at the
    /// event's position and force.
    pub fn from_input(input: &TouchInput) -> (t: Touch)
        ensures
            t == Touch::spec_from_input(*input),
    {
        Touch {
            id: input.id,
            start_position: input.position,
            start_force: input.force,
            previous_position: input.position,
            previous_force: input.force,
            position: input.position,
            force: input.force,
        }
    }

    /// `from_input` as a specification value.
    pub open spec fn spec_from_input(input: TouchInput) -> Touch {
        Touch {
            id: input.id,
            start_position: input.position,
            start_force: input.force,
            previous_position: input.position,
            previous_force: input.force,
            position: input.position,
            force: input.force,
        }
    }

    /// The contact moved: the old position and force become the previous
    /// ones, the event's become current. Start values stay.
    pub open spec fn spec_moved(self, input: TouchInput) -> Touch {
        Touch {
            previous_position: self.position,
            previous_force: self.force,
            position: input.position,
            force: input.force,
            ..self
        }
    }
}

/// No two touches in the sequence share an id.
pub open spec fn ids_unique(s: Seq<Touch>) -> bool {
    forall|i: int, j: int|
        0 <= i < j < s.len() ==> (#[trigger] s[i]).id != (#[trigger] s[j]).id
}

/// Some touch in the sequence carries this id.
pub open spec fn contains_id(s: Seq<Touch>, id: u64) -> bool {
    exists|i: int| 0 <= i < s.len() && (#[trigger] s[i]).id == id
}

/// The touch carrying this id; meaningful only where one exists.
pub open spec fn touch_at(s: Seq<Touch>, id: u64) -> Touch
    recommends
        contains_id(s, id),
{
    s[choose|i: int| 0 <= i < s.len() && (#[trigger] s[i]).id == id]
}

/// Under unique ids, a witness index pins `touch_at` down.
proof fn lemma_touch_at(s: Seq<Touch>, id: u64, i: int)
    requires
        ids_unique(s),
        0 <= i < s.len(),
        s[i].id == id,
    ensures
        contains_id(s, id),
        touch_at(s, id) == s[i],
{
    let j = choose|j: int| 0 <= j < s.len() && (#[trigger] s[j]).id == id;
    if i != j {
        assert(s[i].id != s[j].id);
    }
}

/// `new` holds `old` with the touch `t` inserted under its id, replacing any
/// touch that carried it; every other id is untouched.
pub open spec fn upserted(new: Seq<Touch>, old: Seq<Touch>, t: Touch) -> bool {
    &&& contains_id(new, t.id)
    &&& touch_at(new, t.id) == t
    &&& forall|k: u64| k != t.id ==> contains_id(new, k) == contains_id(old, k)
    &&& forall|k: u64|
        k != t.id && contains_id(old, k) ==> touch_at(new, k) == touch_at(old, k)
}

/// `new` holds `old` with the touch under this id taken out, if any was
/// there; every other id is untouched.
pub open spec fn removed(new: Seq<Touch>, old: Seq<Touch>, id: u64) -> bool {
    &&& !contains_id(new, id)
    &&& forall|k: u64| k != id ==> contains_id(new, k) == contains_id(old, k)
    &&& forall|k: u64| k != id && contains_id(old, k) ==> touch_at(new, k) == touch_at(old, k)
}

/// Inserts a touch under its id, replacing the touch that carried it, if any.
fn upsert_touch(v: &mut Vec<Touch>, t: Touch)
    requires
        ids_unique(old(v)@),
    ensures
        ids_unique(final(v)@),
        upserted(final(v)@, old(v)@, t),
{
    let n = v.len();
    let mut i: usize = 0;
    while i < n
        invariant
            i <= n,
            n == v@.len(),
            v@ == old(v)@,
            ids_unique(v@),
            forall|j: int| 0 <= j < i ==> (#[trigger] v@[j]).id != t.id,
        decreases n - i,
    {
        if v[i].id == t.id {
            let ghost prev = v@;
            v.set(i, t);
            proof {
                assert forall|a: int, b: int|
                    0 <= a < b < v@.len() implies (#[trigger] v@[a]).id != (#[trigger] v@[b]).id by {
                    assert(prev[a].id != prev[b].id);
                }
                lemma_touch_at(v@, t.id, i as int);
                assert forall|k: u64| k != t.id implies contains_id(v@, k) == contains_id(
                    prev,
                    k,
                ) by {
                    if contains_id(prev, k) {
                        let j = choose|j: int| 0 <= j < prev.len() && (#[trigger] prev[j]).id == k;
                        assert(j != i);
                        assert(v@[j].id == k);
                    }
                    if contains_id(v@, k) {
                        let j = choose|j: int| 0 <= j < v@.len() && (#[trigger] v@[j]).id == k;
                        assert(j != i);
                        assert(prev[j].id == k);
                    }
                }
                assert forall|k: u64| k != t.id && contains_id(prev, k) implies touch_at(v@, k)
                    == touch_at(prev, k) by {
                    let j = choose|j: int| 0 <= j < prev.len() && (#[trigger] prev[j]).id == k;
                    assert(j != i);
                    lemma_touch_at(prev, k, j);
                    lemma_touch_at(v@, k, j);
                }
            }
            return;
        }
        i = i + 1;
    }
    let ghost prev = v@;
    v.push(t);
    proof {
        assert forall|a: int, b: int|
            0 <= a < b < v@.len() implies (#[trigger] v@[a]).id != (#[trigger] v@[b]).id by {
            if b < prev.len() {
                assert(prev[a].id != prev[b].id);
            } else {
                assert(prev[a].id != t.id);
            }
        }
        lemma_touch_at(v@, t.id, prev.len() as int);
        assert forall|k: u64| k != t.id implies contains_id(v@, k) == contains_id(prev, k) by {
            if contains_id(prev, k) {
                let j = choose|j: int| 0 <= j < prev.len() && (#[trigger] prev[j]).id == k;
                assert(v@[j].id == k);
            }
            if contains_id(v@, k) {
                let j = choose|j: int| 0 <= j < v@.len() && (#[trigger] v@[j]).id == k;
                assert(j < prev.len());
                assert(prev[j].id == k);
            }
        }
        assert forall|k: u64| k != t.id && contains_id(prev, k) implies touch_at(v@, k)
            == touch_at(prev, k) by {
            let j = choose|j: int| 0 <= j < prev.len() && (#[trigger] prev[j]).id == k;
            lemma_touch_at(prev, k, j);
            lemma_touch_at(v@, k, j);
        }
    }
}

/// Takes the touch under this id out, if any is there.
fn remove_touch(v: &mut Vec<Touch>, id: u64)
    requires
        ids_unique(old(v)@),
    ensures
        ids_unique(final(v)@),
        removed(final(v)@, old(v)@, id),
{
    let n = v.len();
    let mut i: usize = 0;
    while i < n
        invariant
            i <= n,
            n == v@.len(),
            v@ == old(v)@,
            ids_unique(v@),
            forall|j: int| 0 <= j < i ==> (#[trigger] v@[j]).id != id,
        decreases n - i,
    {
        if v[i].id == id {
            let ghost prev = v@;
            v.remove(i);
            proof {
                assert(v@ =~= prev.remove(i as int));
                let idx = |j: int| if j < i { j } else { j + 1 };
                assert forall|j: int| 0 <= j < v@.len() implies v@[j] == prev[idx(j)] by {}
                assert forall|a: int, b: int|
                    0 <= a < b < v@.len() implies (#[trigger] v@[a]).id != (#[trigger] v@[b]).id by {
                    assert(prev[idx(a)].id != prev[idx(b)].id);
                }
                assert forall|j: int| 0 <= j < v@.len() implies (#[trigger] v@[j]).id != id by {
                    assert(idx(j) != i);
                    assert(prev[idx(j)].id != prev[i as int].id);
                }
                assert forall|k: u64| k != id implies contains_id(v@, k) == contains_id(
                    prev,
                    k,
                ) by {
                    if contains_id(prev, k) {
                        let j = choose|j: int| 0 <= j < prev.len() && (#[trigger] prev[j]).id == k;
                        assert(j != i);
                        if j < i {
                            assert(v@[j].id == k);
                        } else {
                            assert(v@[j - 1].id == k);
                        }
                    }
                    if contains_id(v@, k) {
                        let j = choose|j: int| 0 <= j < v@.len() && (#[trigger] v@[j]).id == k;
                        assert(prev[idx(j)].id == k);
                    }
                }
                assert forall|k: u64| k != id && contains_id(prev, k) implies touch_at(v@, k)
                    == touch_at(prev, k) by {
                    let j = choose|j: int| 0 <= j < prev.len() && (#[trigger] prev[j]).id == k;
                    assert(j != i);
                    lemma_touch_at(prev, k, j);
                    if j < i {
                        assert(v@[j] == prev[j]);
                        lemma_touch_at(v@, k, j);
                    } else {
                        assert(v@[j - 1] == prev[j]);
                        lemma_touch_at(v@, k, j - 1);
                    }
                }
            }
            return;
        }
        i = i + 1;
    }
}

/// The touch stored under this id, if any.
fn find_touch(v: &Vec<Touch>, id: u64) -> (r: Option<Touch>)
    requires
        ids_unique(v@),
    ensures
        r is Some <==> contains_id(v@, id),
        r matches Some(t) ==> t == touch_at(v@, id),
{
    let n = v.len();
    let mut i: usize = 0;
    while i < n
        invariant
            i <= n,
            n == v@.len(),
            ids_unique(v@),
            forall|j: int| 0 <= j < i ==> (#[trigger] v@[j]).id != id,
        decreases n - i,
    {
        if v[i].id == id {
            proof {
                lemma_touch_at(v@, id, i as int);
            }
            return Some(v[i]);
        }
        i = i + 1;
    }
    None
}

/// A copy of the stored touches, in storage order.
fn copy_touches(v: &Vec<Touch>) -> (r: Vec<Touch>)
    ensures
        r@ == v@,
{
    let n = v.len();
    let mut r: Vec<Touch> = Vec::new();
    let mut i: usize = 0;
    while i < n
        invariant
            i <= n,
            n == v@.len(),
            r@ == v@.take(i as int),
        decreases n - i,
    {
        r.push(v[i]);
        proof {
            assert(r@ =~= v@.take(i as int + 1));
        }
        i = i + 1;
    }
    proof {
        assert(v@.take(n as int) =~= v@);
    }
    r
}

/// The touch contacts of a touchscreen, folded over the raw events of every
/// frame: the live (pressed) contacts, keyed by finger id, and the transient
/// sets of contacts that just got pressed, released, or cancelled this frame.
#[derive(Clone, Debug)]
pub struct Touches {
    /// Every touch currently being pressed.
    pressed: Vec<Touch>,
    /// Every touch that just got pressed.
    just_pressed: Vec<Touch>,
    /// Every touch that just got released.
    just_released: Vec<Touch>,
    /// Every touch that just got cancelled.
    just_cancelled: Vec<Touch>,
}

impl Touches {
    /// The stored pressed contacts, for specifications.
    pub closed spec fn pressed_view(self) -> Seq<Touch> {
        self.pressed@
    }

    /// The stored just-pressed contacts, for specifications.
    pub closed spec fn just_pressed_view(self) -> Seq<Touch> {
        self.just_pressed@
    }

    /// The stored just-released contacts, for specifications.
    pub closed spec fn just_released_view(self) -> Seq<Touch> {
        self.just_released@
    }

    /// The stored just-cancelled contacts, for specifications.
    pub closed spec fn just_cancelled_view(self) -> Seq<Touch> {
        self.just_cancelled@
    }

    /// Each of the four sets holds at most one touch per finger id.
    pub closed spec fn inv(self) -> bool {
        &&& ids_unique(self.pressed@)
        &&& ids_unique(self.just_pressed@)
        &&& ids_unique(self.just_released@)
        &&& ids_unique(self.just_cancelled@)
    }
}

impl Default for Touches {
    /// No contact has been seen yet.
    fn default() -> (t: Touches)
        ensures
            t.inv(),
            t.pressed_view() == Seq::<Touch>::empty(),
            t.just_pressed_view() == Seq::<Touch>::empty(),
            t.just_released_view() == Seq::<Touch>::empty(),
            t.just_cancelled_view() == Seq::<Touch>::empty(),
    {
        let t = Touches {
            pressed: Vec::new(),
            just_pressed: Vec::new(),
            just_released: Vec::new(),
            just_cancelled: Vec::new(),
        };
        proof {
            assert(t.pressed@ =~= Seq::<Touch>::empty());
            assert(t.just_pressed@ =~= Seq::<Touch>::empty());
            assert(t.just_released@ =~= Seq::<Touch>::empty());
            assert(t.just_cancelled@ =~= Seq::<Touch>::empty());
        }
        t
    }
}

impl Touches {
    /// Every pressed touch, in storage order.
    pub fn iter(&self) -> (r: Vec<Touch>)
        ensures
            r@ == self.pressed_view(),
    {
        copy_touches(&self.pressed)
    }

    /// The pressed touch under this id, if it is being pressed.
    pub fn get_pressed(&self, id: u64) -> (r: Option<Touch>)
        requires
            self.inv(),
        ensures
            r is Some <==> contains_id(self.pressed_view(), id),
            r matches Some(t) ==> t == touch_at(self.pressed_view(), id),
    {
        find_touch(&self.pressed, id)
    }

    /// Whether the touch under this id just got pressed.
    pub fn just_pressed(&self, id: u64) -> (r: bool)
        requires
            self.inv(),
        ensures
            r == contains_id(self.just_pressed_view(), id),
    {
        find_touch(&self.just_pressed, id).is_some()
    }

    /// Every just-pressed touch, in storage order.
    pub fn iter_just_pressed(&self) -> (r: Vec<Touch>)
        ensures
            r@ == self.just_pressed_view(),
    {
        copy_touches(&self.just_pressed)
    }

    /// The touch under this id, if it just got released.
    pub fn get_released(&self, id: u64) -> (r: Option<Touch>)
        requires
            self.inv(),
        ensures
            r is Some <==> contains_id(self.just_released_view(), id),
            r matches Some(t) ==> t == touch_at(self.just_released_view(), id),
    {
        find_touch(&self.just_released, id)
    }

    /// Whether the touch under this id just got released.
    pub fn just_released(&self, id: u64) -> (r: bool)
        requires
            self.inv(),
        ensures
            r == contains_id(self.just_released_view(), id),
    {
        find_touch(&self.just_released, id).is_some()
    }

    /// Every just-released touch, in storage order.
    pub fn iter_just_released(&self) -> (r: Vec<Touch>)
        ensures
            r@ == self.just_released_view(),
    {
        copy_touches(&self.just_released)
    }

    /// Whether the touch under this id just got cancelled.
    pub fn just_cancelled(&self, id: u64) -> (r: bool)
        requires
            self.inv(),
        ensures
            r == contains_id(self.just_cancelled_view(), id),
    {
        find_touch(&self.just_cancelled, id).is_some()
    }

    /// Every just-cancelled touch, in storage order.
    pub fn iter_just_cancelled(&self) -> (r: Vec<Touch>)
        ensures
            r@ == self.just_cancelled_view(),
    {
        copy_touches(&self.just_cancelled)
    }

    /// Folds one raw touch event into the collections. A started finger is
    /// stored as pressed and just pressed; a move updates the pressed entry
    /// under the finger's id, if one is live, keeping its start values; an
    /// end or a cancellation records the event's touch as just released or
    /// just cancelled and takes the finger out of the pressed set.
    pub fn process_touch_event(&mut self, event: &TouchInput)
        requires
            old(self).inv(),
        ensures
            final(self).inv(),
            event.phase == TouchPhase::Started ==> {
                &&& upserted(
                    final(self).pressed_view(),
                    old(self).pressed_view(),
                    Touch::spec_from_input(*event),
                )
                &&& upserted(
                    final(self).just_pressed_view(),
                    old(self).just_pressed_view(),
                    Touch::spec_from_input(*event),
                )
                &&& final(self).just_released_view() == old(self).just_released_view()
                &&& final(self).just_cancelled_view() == old(self).just_cancelled_view()
            },
            event.phase == TouchPhase::Moved ==> {
                &&& contains_id(old(self).pressed_view(), event.id) ==> upserted(
                    final(self).pressed_view(),
                    old(self).pressed_view(),
                    touch_at(old(self).pressed_view(), event.id).spec_moved(*event),
                )
                &&& !contains_id(old(self).pressed_view(), event.id) ==> final(self).pressed_view()
                    == old(self).pressed_view()
                &&& final(self).just_pressed_view() == old(self).just_pressed_view()
                &&& final(self).just_released_view() == old(self).just_released_view()
                &&& final(self).just_cancelled_view() == old(self).just_cancelled_view()
            },
            event.phase == TouchPhase::Ended ==> {
                &&& removed(final(self).pressed_view(), old(self).pressed_view(), event.id)
                &&& upserted(
                    final(self).just_released_view(),
                    old(self).just_released_view(),
                    Touch::spec_from_input(*event),
                )
                &&& final(self).just_pressed_view() == old(self).just_pressed_view()
                &&& final(self).just_cancelled_view() == old(self).just_cancelled_view()
            },
            event.phase == TouchPhase::Cancelled ==> {
                &&& removed(final(self).pressed_view(), old(self).pressed_view(), event.id)
                &&& upserted(
                    final(self).just_cancelled_view(),
                    old(self).just_cancelled_view(),
                    Touch::spec_from_input(*event),
                )
                &&& final(self).just_pressed_view() == old(self).just_pressed_view()
                &&& final(self).just_released_view() == old(self).just_released_view()
            },
    {
        match event.phase {
            TouchPhase::Started => {
                upsert_touch(&mut self.pressed, Touch::from_input(event));
                upsert_touch(&mut self.just_pressed, Touch::from_input(event));
            },
            TouchPhase::Moved => {
                match find_touch(&self.pressed, event.id) {
                    Some(cur) => {
                        let moved = Touch {
                            previous_position: cur.position,
                            previous_force: cur.force,
                            position: event.position,
                            force: event.force,
                            ..cur
                        };
                        upsert_touch(&mut self.pressed, moved);
                    },
                    None => {},
                }
            },
            TouchPhase::Ended => {
                upsert_touch(&mut self.just_released, Touch::from_input(event));
                remove_touch(&mut self.pressed, event.id);
            },
            TouchPhase::Cancelled => {
                upsert_touch(&mut self.just_cancelled, Touch::from_input(event));
                remove_touch(&mut self.pressed, event.id);
            },
        }
    }

    /// Opens a new frame: the transient just-pressed, just-released, and
    /// just-cancelled sets are emptied. The pressed set is kept: a finger
    /// that sends no event this frame is still down.
    pub fn update(&mut self)
        ensures
            old(self).inv() ==> final(self).inv(),
            final(self).pressed_view() == old(self).pressed_view(),
            final(self).just_pressed_view() == Seq::<Touch>::empty(),
            final(self).just_released_view() == Seq::<Touch>::empty(),
            final(self).just_cancelled_view() == Seq::<Touch>::empty(),
    {
        self.just_pressed = Vec::new();
        self.just_released = Vec::new();
        self.just_cancelled = Vec::new();
        proof {
            assert(self.just_pressed@ =~= Seq::<Touch>::empty());
            assert(self.just_released@ =~= Seq::<Touch>::empty());
            assert(self.just_cancelled@ =~= Seq::<Touch>::empty());
        }
    }
}

} // verus!
