//! The orbit-camera core: pose and configuration, per-frame intents, pose
//! updates, and derivation of the look-at transform.
//!
//! The camera sits at distance `rho` from a pivot (`origin`), at polar angle
//! `theta` around the vertical axis and azimuthal angle `phi` above the orbit
//! plane. Angles are radians in fixed-point units. Per tick, raw input is
//! aggregated into `CameraEvents`, the events are applied to the pose, and a
//! world transform is derived from the pose.
//!
//! Of the three configured ranges only the azimuthal one is enforced while
//! events are applied: `theta` and `rho` run free. That asymmetry is this
//! controller's deliberate, documented behaviour; a caller who wants all
//! three ranges held must clamp the other two itself. The radius is
//! additionally held at one unit or more so that it stays positive.

use vstd::prelude::*;

use crate::fix::bound_add;
use crate::fix::fx_clamp;
use crate::fix::fx_mul;
use crate::fix::fx_mul_sat;
use crate::fix::sat_add;
use crate::fix::sat_sub;
use crate::fix::add_bounded;
use crate::fix::add_sat;
use crate::fix::clamp_fix;
use crate::fix::mul_sat;
use crate::fix::sub_sat;
use crate::fix::FIX_BOUND;
use crate::fix::FIX_SAT;
use crate::fix::SCALE;
use crate::geom::Vec2;
use crate::geom::Vec3;

verus! {

/// Pi in fixed-point units.
pub const PI_FIX: i64 = 3_141_592;

/// Pi halves in fixed-point units.
pub const FRAC_PI_2_FIX: i64 = 1_570_796;

/// How much one scrolled pixel counts compared to one scrolled line.
pub const LINE_TO_PIXEL_RATIO: i64 = 100_000;

/// A pointer button, identified by its role.
#[derive(Clone, Copy, Debug, PartialEq, Eq, Structural)]
pub enum PointerButton {
    /// The primary button (usually left).
    Primary,
    /// The secondary button (usually right).
    Secondary,
    /// The middle button.
    Middle,
}

/// An inclusive range of fixed-point scalars.
#[derive(Clone, Copy, Debug, PartialEq, Eq, Structural)]
pub struct Bounds {
    pub lo: i64,
    pub hi: i64,
}

/// A transient per-frame motion intent, consumed in the tick that emits it.
#[derive(Clone, Copy, Debug, PartialEq, Eq, Structural)]
pub enum CameraEvents {
    /// Move the pivot inside the view plane by this pointer delta.
    Pan(Vec2),
    /// Rotate around the pivot by this pointer delta.
    Orbit(Vec2),
    /// Scale the orbit radius by the zoom sensitivity raised to this amount.
    Zoom(i64),
}

/// The unit a scroll event reports its amount in.
#[derive(Clone, Copy, Debug, PartialEq, Eq, Structural)]
pub enum ScrollUnit {
    /// Whole lines of text.
    Line,
    /// Pixels; converted to lines by `LINE_TO_PIXEL_RATIO`.
    Pixel,
}

/// One raw scroll event of a frame.
#[derive(Clone, Copy, Debug, PartialEq, Eq, Structural)]
pub struct ScrollEvent {
    pub unit: ScrollUnit,
    pub amount: i64,
}

/// Pose and configuration of one orbiting camera.
#[derive(Clone, Copy, Debug, PartialEq, Eq, Structural)]
pub struct OrbitCamera {
    /// The pivot the camera orbits around.
    pub origin: Vec3,
    /// Polar angle: rotation around the vertical axis, radians.
    pub theta: i64,
    /// Azimuthal angle: elevation above the orbit plane, radians.
    pub phi: i64,
    /// Orbit radius: distance from pivot to camera, always positive.
    pub rho: i64,
    /// Configured polar range (declared, not enforced during updates).
    pub theta_range: Bounds,
    /// Configured azimuthal range, enforced after every orbit intent.
    pub phi_range: Bounds,
    /// Configured radius range (declared, not enforced during updates).
    pub rho_range: Bounds,
    /// Scales pointer deltas into angular motion.
    pub rotate_sensitivity: i64,
    /// Scales pointer deltas into pivot motion.
    pub pan_sensitivity: i64,
    /// Base of the exponential radius change per scrolled line.
    pub zoom_sensitivity: i64,
    /// Button that must be held for pointer motion to orbit.
    pub rotate_button: PointerButton,
    /// Button that must be held for pointer motion to pan.
    pub pan_button: PointerButton,
    /// While false, the camera ignores all intents and keeps its transform.
    pub enabled: bool,
}

impl OrbitCamera {
    /// The configuration part is sane: ranges ordered, scalars inside the
    /// input bound, the zoom base non-negative.
    pub open spec fn config_wf(self) -> bool {
        &&& self.phi_range.lo <= self.phi_range.hi
        &&& -FIX_BOUND <= self.phi_range.lo && self.phi_range.hi <= FIX_BOUND
        &&& -FIX_BOUND <= self.theta_range.lo <= self.theta_range.hi <= FIX_BOUND
        &&& -FIX_BOUND <= self.rho_range.lo <= self.rho_range.hi <= FIX_BOUND
        &&& -FIX_BOUND <= self.rotate_sensitivity <= FIX_BOUND
        &&& -FIX_BOUND <= self.pan_sensitivity <= FIX_BOUND
        &&& 0 <= self.zoom_sensitivity <= FIX_BOUND
    }

    /// The pose scalars carried between ticks stay inside the saturation
    /// limit, and the radius stays positive.
    pub open spec fn pose_wf(self) -> bool {
        &&& -FIX_SAT <= self.theta <= FIX_SAT
        &&& -FIX_SAT <= self.phi <= FIX_SAT
        &&& 1 <= self.rho <= FIX_SAT
        &&& -FIX_SAT <= self.origin.x <= FIX_SAT
        &&& -FIX_SAT <= self.origin.y <= FIX_SAT
        &&& -FIX_SAT <= self.origin.z <= FIX_SAT
    }

    pub open spec fn wf(self) -> bool {
        self.config_wf() && self.pose_wf()
    }
}

impl Default for OrbitCamera {
    /// The stock camera: five units from the origin, looking straight down,
    /// left button orbits, right button pans, enabled.
    fn default() -> (c: OrbitCamera)
        ensures
            c == OrbitCamera::default_spec(),
            c.wf(),
    {
        OrbitCamera {
            origin: Vec3 { x: 0, y: 0, z: 0 },
            theta: 0,
            phi: FRAC_PI_2_FIX,
            rho: 5_000_000,
            theta_range: Bounds { lo: 10_000, hi: PI_FIX },
            phi_range: Bounds { lo: 10_000, hi: FRAC_PI_2_FIX },
            rho_range: Bounds { lo: 10_000, hi: 1_000_000_000 },
            rotate_sensitivity: SCALE,
            pan_sensitivity: SCALE,
            zoom_sensitivity: 800_000,
            rotate_button: PointerButton::Primary,
            pan_button: PointerButton::Secondary,
            enabled: true,
        }
    }
}

/// The running sum of the `x` components of a frame's pointer motions,
/// clipped into the input bound at every step.
pub open spec fn msum_x(ms: Seq<Vec2>) -> int
    decreases ms.len(),
{
    if ms.len() == 0 {
        0
    } else {
        bound_add(msum_x(ms.drop_last()), ms.last().x as int)
    }
}

/// As `msum_x`, for the `y` components.
pub open spec fn msum_y(ms: Seq<Vec2>) -> int
    decreases ms.len(),
{
    if ms.len() == 0 {
        0
    } else {
        bound_add(msum_y(ms.drop_last()), ms.last().y as int)
    }
}

/// A frame's pointer motions summed into one delta.
pub open spec fn motion_delta(ms: Seq<Vec2>) -> Vec2 {
    Vec2 { x: msum_x(ms) as i64, y: msum_y(ms) as i64 }
}

/// What one scroll event adds to the frame's zoom total, in lines.
pub open spec fn scroll_contribution(e: ScrollEvent) -> int {
    match e.unit {
        ScrollUnit::Line => e.amount as int,
        ScrollUnit::Pixel => fx_mul(e.amount as int, LINE_TO_PIXEL_RATIO as int),
    }
}

/// The running zoom total of a frame's scroll events, clipped into the
/// input bound at every step.
pub open spec fn scroll_total(es: Seq<ScrollEvent>) -> int
    decreases es.len(),
{
    if es.len() == 0 {
        0
    } else {
        bound_add(scroll_total(es.drop_last()), scroll_contribution(es.last()))
    }
}

/// The intents a frame's pointer state earns an enabled camera: orbit if
/// the rotate button is held, pan if the pan button is held, in that
/// order; both checks are independent.
pub open spec fn motion_events_spec(
    cam: OrbitCamera,
    ms: Seq<Vec2>,
    pressed: Seq<PointerButton>,
) -> Seq<CameraEvents> {
    let d = motion_delta(ms);
    let orbits: Seq<CameraEvents> = if pressed.contains(cam.rotate_button) {
        seq![CameraEvents::Orbit(d)]
    } else {
        seq![]
    };
    let pans: Seq<CameraEvents> = if pressed.contains(cam.pan_button) {
        seq![CameraEvents::Pan(d)]
    } else {
        seq![]
    };
    orbits + pans
}

impl OrbitCamera {
    /// A camera at the given radius around the given pivot, with the stock
    /// configuration for everything else.
    pub fn new(rho: i64, origin: Vec3) -> (c: OrbitCamera)
        requires
            1 <= rho <= FIX_SAT,
            -FIX_SAT <= origin.x <= FIX_SAT,
            -FIX_SAT <= origin.y <= FIX_SAT,
            -FIX_SAT <= origin.z <= FIX_SAT,
        ensures
            c == (OrbitCamera { rho, origin, ..OrbitCamera::default_spec() }),
            c.wf(),
    {
        let mut c: OrbitCamera = Default::default();
        c.rho = rho;
        c.origin = origin;
        c
    }

    /// The stock camera as a specification value.
    pub open spec fn default_spec() -> OrbitCamera {
        OrbitCamera {
            origin: Vec3 { x: 0, y: 0, z: 0 },
            theta: 0,
            phi: FRAC_PI_2_FIX,
            rho: 5_000_000,
            theta_range: Bounds { lo: 10_000, hi: PI_FIX },
            phi_range: Bounds { lo: 10_000, hi: FRAC_PI_2_FIX },
            rho_range: Bounds { lo: 10_000, hi: 1_000_000_000 },
            rotate_sensitivity: SCALE,
            pan_sensitivity: SCALE,
            zoom_sensitivity: 800_000,
            rotate_button: PointerButton::Primary,
            pan_button: PointerButton::Secondary,
            enabled: true,
        }
    }
}

/// Every delta and scalar an event carries lies inside the input bound.
pub open spec fn event_bounded(e: CameraEvents) -> bool {
    match e {
        CameraEvents::Pan(d) => -FIX_BOUND <= d.x <= FIX_BOUND && -FIX_BOUND <= d.y <= FIX_BOUND,
        CameraEvents::Orbit(d) => -FIX_BOUND <= d.x <= FIX_BOUND && -FIX_BOUND <= d.y
            <= FIX_BOUND,
        CameraEvents::Zoom(s) => -FIX_BOUND <= s <= FIX_BOUND,
    }
}

/// As `event_bounded`, over a whole frame's events.
pub open spec fn events_bounded(events: Seq<CameraEvents>) -> bool {
    forall|i: int| 0 <= i < events.len() ==> event_bounded(#[trigger] events[i])
}

/// Sums a frame's pointer motions into one accumulated delta, each component
/// clipped into the input bound.
pub fn accumulate_motion(motions: &Vec<Vec2>) -> (d: Vec2)
    ensures
        d.x as int == msum_x(motions@),
        d.y as int == msum_y(motions@),
        -FIX_BOUND <= d.x <= FIX_BOUND,
        -FIX_BOUND <= d.y <= FIX_BOUND,
{
    let mut dx: i64 = 0;
    let mut dy: i64 = 0;
    let n = motions.len();
    let mut i: usize = 0;
    while i < n
        invariant
            i <= n,
            n == motions@.len(),
            dx as int == msum_x(motions@.take(i as int)),
            dy as int == msum_y(motions@.take(i as int)),
            -FIX_BOUND <= dx <= FIX_BOUND,
            -FIX_BOUND <= dy <= FIX_BOUND,
        decreases n - i,
    {
        proof {
            assert(motions@.take(i as int + 1).drop_last() =~= motions@.take(i as int));
            assert(motions@.take(i as int + 1).last() == motions@[i as int]);
        }
        dx = add_bounded(dx, motions[i].x);
        dy = add_bounded(dy, motions[i].y);
        i = i + 1;
    }
    proof {
        assert(motions@.take(n as int) =~= motions@);
    }
    Vec2 { x: dx, y: dy }
}

/// Whether the given button is among the currently held ones.
pub fn is_pressed(pressed: &Vec<PointerButton>, b: PointerButton) -> (r: bool)
    ensures
        r == pressed@.contains(b),
{
    let n = pressed.len();
    let mut i: usize = 0;
    while i < n
        invariant
            i <= n,
            n == pressed@.len(),
            forall|j: int| 0 <= j < i ==> pressed@[j] != b,
        decreases n - i,
    {
        if pressed[i] == b {
            return true;
        }
        i = i + 1;
    }
    false
}

/// The marker the per-frame systems hang off, mirroring how they are grouped
/// when registered with a scheduler.
pub struct OrbitCameraPlugin;

impl OrbitCameraPlugin {
    /// Turns a frame's pointer motions and held buttons into the orbit and
    /// pan intents of one camera: the accumulated delta is sent once per held
    /// configured button; a disabled camera receives nothing.
    pub fn emit_motion_events(
        camera: &OrbitCamera,
        motions: &Vec<Vec2>,
        pressed: &Vec<PointerButton>,
    ) -> (events: Vec<CameraEvents>)
        ensures
            camera.enabled ==> events@ == motion_events_spec(*camera, motions@, pressed@),
            !camera.enabled ==> events@ == Seq::<CameraEvents>::empty(),
            events_bounded(events@),
    {
        let mut events: Vec<CameraEvents> = Vec::new();
        if !camera.enabled {
            proof {
                assert(events@ =~= Seq::<CameraEvents>::empty());
            }
            return events;
        }
        let d = accumulate_motion(motions);
        if is_pressed(pressed, camera.rotate_button) {
            events.push(CameraEvents::Orbit(d));
        }
        if is_pressed(pressed, camera.pan_button) {
            events.push(CameraEvents::Pan(d));
        }
        proof {
            assert(d == motion_delta(motions@));
            assert(events@ =~= motion_events_spec(*camera, motions@, pressed@));
        }
        events
    }

    /// Turns a frame's scroll events into at most one zoom intent: the
    /// accumulated total in lines, sent only when it is not zero and the
    /// camera is enabled.
    pub fn emit_zoom_events(camera: &OrbitCamera, wheel: &Vec<ScrollEvent>) -> (events: Vec<
        CameraEvents,
    >)
        requires
            forall|i: int| 0 <= i < wheel@.len() ==> -FIX_BOUND <= (#[trigger] wheel@[i]).amount
                <= FIX_BOUND,
        ensures
            camera.enabled && scroll_total(wheel@) != 0 ==> events@ == seq![
                CameraEvents::Zoom(scroll_total(wheel@) as i64),
            ],
            !camera.enabled || scroll_total(wheel@) == 0 ==> events@ == Seq::<
                CameraEvents,
            >::empty(),
            events_bounded(events@),
    {
        let mut events: Vec<CameraEvents> = Vec::new();
        let mut total: i64 = 0;
        let n = wheel.len();
        let mut i: usize = 0;
        while i < n
            invariant
                i <= n,
                n == wheel@.len(),
                forall|k: int| 0 <= k < wheel@.len() ==> -FIX_BOUND <= (#[trigger] wheel@[k]).amount <= FIX_BOUND,
                total as int == scroll_total(wheel@.take(i as int)),
                -FIX_BOUND <= total <= FIX_BOUND,
            decreases n - i,
        {
            proof {
                assert(wheel@.take(i as int + 1).drop_last() =~= wheel@.take(i as int));
                assert(wheel@.take(i as int + 1).last() == wheel@[i as int]);
            }
            let e = wheel[i];
            let c: i64 = match e.unit {
                ScrollUnit::Line => e.amount,
                ScrollUnit::Pixel => {
                    proof {
                        crate::fix::lemma_fx_mul_bound(
                            e.amount as int,
                            LINE_TO_PIXEL_RATIO as int,
                            FIX_BOUND as int,
                            LINE_TO_PIXEL_RATIO as int,
                        );
                        crate::fix::lemma_fx_mul_sat_exact(
                            e.amount as int,
                            LINE_TO_PIXEL_RATIO as int,
                        );
                    }
                    mul_sat(e.amount, LINE_TO_PIXEL_RATIO)
                },
            };
            total = add_bounded(total, c);
            i = i + 1;
        }
        proof {
            assert(wheel@.take(n as int) =~= wheel@);
        }
        if total != 0 && camera.enabled {
            events.push(CameraEvents::Zoom(total));
            proof {
                assert(events@ =~= seq![CameraEvents::Zoom(scroll_total(wheel@) as i64)]);
            }
        } else {
            proof {
                assert(events@ =~= Seq::<CameraEvents>::empty());
            }
        }
        events
    }
}

/// One orbit intent's effect on the polar angle: the delta, scaled by
/// sensitivity and frame time, is subtracted. No range is applied.
pub open spec fn orbit_step_theta(theta: int, dx: int, sens: int, dt: int) -> int {
    sat_sub(theta, fx_mul(fx_mul(dx, sens), dt))
}

/// One orbit intent's effect on the azimuthal angle: as for the polar angle,
/// then clamped into the configured range.
pub open spec fn orbit_step_phi(phi: int, dy: int, sens: int, dt: int, lo: int, hi: int) -> int {
    fx_clamp(sat_sub(phi, fx_mul(fx_mul(dy, sens), dt)), lo, hi)
}

/// One pan intent's effect on one pivot component: the delta projected onto
/// the camera's right (`r`) and up (`u`) axes, scaled by sensitivity and
/// frame time, is added.
pub open spec fn pan_step(p: int, dx: int, dy: int, r: int, u: int, sens: int, dt: int) -> int {
    sat_add(p, fx_mul(fx_mul(sat_add(fx_mul(dx, r), fx_mul(dy, u)), sens), dt))
}

/// The polar angle after a frame's events: only orbit intents move it.
pub open spec fn theta_after(theta: int, events: Seq<CameraEvents>, sens: int, dt: int) -> int
    decreases events.len(),
{
    if events.len() == 0 {
        theta
    } else {
        let prev = theta_after(theta, events.drop_last(), sens, dt);
        match events.last() {
            CameraEvents::Orbit(d) => orbit_step_theta(prev, d.x as int, sens, dt),
            _ => prev,
        }
    }
}

/// The azimuthal angle after a frame's events: only orbit intents move it,
/// and every step clamps it into the configured range.
pub open spec fn phi_after(
    phi: int,
    events: Seq<CameraEvents>,
    sens: int,
    dt: int,
    lo: int,
    hi: int,
) -> int
    decreases events.len(),
{
    if events.len() == 0 {
        phi
    } else {
        let prev = phi_after(phi, events.drop_last(), sens, dt, lo, hi);
        match events.last() {
            CameraEvents::Orbit(d) => orbit_step_phi(prev, d.y as int, sens, dt, lo, hi),
            _ => prev,
        }
    }
}

/// One pivot component after a frame's events: only pan intents move it,
/// each projected onto the camera axes `r` and `u`.
pub open spec fn pivot_after(
    p: int,
    events: Seq<CameraEvents>,
    r: int,
    u: int,
    sens: int,
    dt: int,
) -> int
    decreases events.len(),
{
    if events.len() == 0 {
        p
    } else {
        let prev = pivot_after(p, events.drop_last(), r, u, sens, dt);
        match events.last() {
            CameraEvents::Pan(d) => pan_step(prev, d.x as int, d.y as int, r, u, sens, dt),
            _ => prev,
        }
    }
}

/// One zoom intent's effect on the radius: it is scaled by the zoom base
/// raised to the scrolled amount (a negative amount divides) and held at
/// one unit or more so that it stays positive. A factor that underflows to
/// zero while dividing saturates the radius instead.
pub open spec fn zoom_step_rho(rho: int, sens: int, s: int) -> int {
    if s >= 0 {
        let z = fx_mul_sat(rho, crate::fix::fx_pow(sens, s));
        if z < 1 {
            1
        } else {
            z
        }
    } else {
        let factor = crate::fix::fx_pow(sens, -s);
        if factor == 0 {
            FIX_SAT as int
        } else {
            let z = crate::fix::fx_div_sat(rho, factor);
            if z < 1 {
                1
            } else {
                z
            }
        }
    }
}

/// The radius after a frame's events: only zoom intents move it.
pub open spec fn rho_after(rho: int, events: Seq<CameraEvents>, sens: int) -> int
    decreases events.len(),
{
    if events.len() == 0 {
        rho
    } else {
        let prev = rho_after(rho, events.drop_last(), sens);
        match events.last() {
            CameraEvents::Zoom(s) => zoom_step_rho(prev, sens, s as int),
            _ => prev,
        }
    }
}

/// A delta scaled by sensitivity and frame time, all inside the input bound.
fn scaled_contribution(d: i64, sens: i64, dt: i64) -> (c: i64)
    requires
        -FIX_BOUND <= d <= FIX_BOUND,
        -FIX_BOUND <= sens <= FIX_BOUND,
        -FIX_BOUND <= dt <= FIX_BOUND,
    ensures
        c as int == fx_mul(fx_mul(d as int, sens as int), dt as int),
        -FIX_SAT <= c <= FIX_SAT,
{
    proof {
        crate::fix::lemma_fx_mul_bound(d as int, sens as int, FIX_BOUND as int, FIX_BOUND as int);
        crate::fix::lemma_fx_mul_sat_exact(d as int, sens as int);
    }
    let c1 = mul_sat(d, sens);
    proof {
        crate::fix::lemma_fx_mul_bound(
            c1 as int,
            dt as int,
            ((FIX_BOUND as int) * (FIX_BOUND as int)) / (SCALE as int),
            FIX_BOUND as int,
        );
        crate::fix::lemma_fx_mul_sat_exact(c1 as int, dt as int);
    }
    mul_sat(c1, dt)
}

/// One pivot component moved by one pan intent; see `pan_step`.
fn pan_component(p: i64, dx: i64, dy: i64, r: i64, u: i64, sens: i64, dt: i64) -> (np: i64)
    requires
        -FIX_SAT <= p <= FIX_SAT,
        -FIX_BOUND <= dx <= FIX_BOUND,
        -FIX_BOUND <= dy <= FIX_BOUND,
        -SCALE <= r <= SCALE,
        -SCALE <= u <= SCALE,
        -FIX_BOUND <= sens <= FIX_BOUND,
        -FIX_BOUND <= dt <= FIX_BOUND,
    ensures
        np as int == pan_step(p as int, dx as int, dy as int, r as int, u as int, sens as int, dt as int),
        -FIX_SAT <= np <= FIX_SAT,
{
    proof {
        crate::fix::lemma_fx_mul_bound(dx as int, r as int, FIX_BOUND as int, SCALE as int);
        crate::fix::lemma_fx_mul_sat_exact(dx as int, r as int);
        crate::fix::lemma_fx_mul_bound(dy as int, u as int, FIX_BOUND as int, SCALE as int);
        crate::fix::lemma_fx_mul_sat_exact(dy as int, u as int);
    }
    let px = mul_sat(dx, r);
    let py = mul_sat(dy, u);
    let sum = add_sat(px, py);
    proof {
        crate::fix::lemma_fx_mul_bound(
            sum as int,
            sens as int,
            2 * (FIX_BOUND as int),
            FIX_BOUND as int,
        );
        crate::fix::lemma_fx_mul_sat_exact(sum as int, sens as int);
    }
    let v1 = mul_sat(sum, sens);
    proof {
        crate::fix::lemma_fx_mul_bound(
            v1 as int,
            dt as int,
            (2 * (FIX_BOUND as int) * (FIX_BOUND as int)) / (SCALE as int),
            FIX_BOUND as int,
        );
        crate::fix::lemma_fx_mul_sat_exact(v1 as int, dt as int);
    }
    let v2 = mul_sat(v1, dt);
    add_sat(p, v2)
}

/// The world transform derived from a camera pose: a position and the three
/// camera axes in world space. `right` is the orientation applied to the
/// negative local X axis, `up` the orientation applied to local Y, and
/// `forward` points from the camera toward the pivot.
#[derive(Clone, Copy, Debug, PartialEq, Eq, Structural)]
pub struct DerivedTransform {
    pub position: Vec3,
    pub right: Vec3,
    pub up: Vec3,
    pub forward: Vec3,
}

impl DerivedTransform {
    /// The axis components stay within one unit, as components of rotated
    /// unit vectors do.
    pub open spec fn basis_wf(self) -> bool {
        &&& -SCALE <= self.right.x <= SCALE && -SCALE <= self.right.y <= SCALE && -SCALE
            <= self.right.z <= SCALE
        &&& -SCALE <= self.up.x <= SCALE && -SCALE <= self.up.y <= SCALE && -SCALE <= self.up.z
            <= SCALE
        &&& -SCALE <= self.forward.x <= SCALE && -SCALE <= self.forward.y <= SCALE && -SCALE
            <= self.forward.z <= SCALE
    }
}

impl Default for DerivedTransform {
    /// A transform at the origin with world-aligned axes; it stands in until
    /// the first derivation runs.
    fn default() -> (t: DerivedTransform)
        ensures
            t.position == (Vec3 { x: 0, y: 0, z: 0 }),
            t.right == (Vec3 { x: SCALE, y: 0, z: 0 }),
            t.up == (Vec3 { x: 0, y: SCALE, z: 0 }),
            t.forward == (Vec3 { x: 0, y: 0, z: SCALE }),
            t.basis_wf(),
    {
        DerivedTransform {
            position: Vec3 { x: 0, y: 0, z: 0 },
            right: Vec3 { x: SCALE, y: 0, z: 0 },
            up: Vec3 { x: 0, y: SCALE, z: 0 },
            forward: Vec3 { x: 0, y: 0, z: SCALE },
        }
    }
}

/// The sine and cosine of the two pose angles, supplied by the caller for
/// the tick's transform derivation. Each value lies in `[-1, 1]`.
#[derive(Clone, Copy, Debug, PartialEq, Eq, Structural)]
pub struct TrigSample {
    pub sin_theta: i64,
    pub cos_theta: i64,
    pub sin_phi: i64,
    pub cos_phi: i64,
}

impl TrigSample {
    /// All four values lie within one unit, as sines and cosines do.
    pub open spec fn wf(self) -> bool {
        &&& -SCALE <= self.sin_theta <= SCALE
        &&& -SCALE <= self.cos_theta <= SCALE
        &&& -SCALE <= self.sin_phi <= SCALE
        &&& -SCALE <= self.cos_phi <= SCALE
    }

    pub fn new(sin_theta: i64, cos_theta: i64, sin_phi: i64, cos_phi: i64) -> (t: TrigSample)
        requires
            -SCALE <= sin_theta <= SCALE,
            -SCALE <= cos_theta <= SCALE,
            -SCALE <= sin_phi <= SCALE,
            -SCALE <= cos_phi <= SCALE,
        ensures
            t == (TrigSample { sin_theta, cos_theta, sin_phi, cos_phi }),
            t.wf(),
    {
        TrigSample { sin_theta, cos_theta, sin_phi, cos_phi }
    }
}

/// How a derived transform follows from a pose and the trigonometric sample
/// of its angles: the camera stands at the pivot plus the radius along the
/// spherical direction, and the axes are the look-at orientation written out.
pub open spec fn derive_rel(cam: OrbitCamera, trig: TrigSample, out: DerivedTransform) -> bool {
    let st = trig.sin_theta as int;
    let ct = trig.cos_theta as int;
    let sp = trig.sin_phi as int;
    let cp = trig.cos_phi as int;
    &&& out.position.x as int == sat_add(cam.origin.x as int, fx_mul(cam.rho as int, -fx_mul(sp, st)))
    &&& out.position.y as int == sat_add(cam.origin.y as int, fx_mul(cam.rho as int, cp))
    &&& out.position.z as int == sat_add(cam.origin.z as int, fx_mul(cam.rho as int, -fx_mul(sp, ct)))
    &&& out.right.x as int == ct
    &&& out.right.y as int == 0
    &&& out.right.z as int == -st
    &&& out.up.x as int == fx_mul(cp, st)
    &&& out.up.y as int == sp
    &&& out.up.z as int == fx_mul(cp, ct)
    &&& out.forward.x as int == fx_mul(sp, st)
    &&& out.forward.y as int == -cp
    &&& out.forward.z as int == fx_mul(sp, ct)
}

/// One position component: pivot plus radius along the direction component.
fn position_component(origin: i64, rho: i64, dir: i64) -> (p: i64)
    requires
        -FIX_SAT <= origin <= FIX_SAT,
        0 <= rho <= FIX_SAT,
        -SCALE <= dir <= SCALE,
    ensures
        p as int == sat_add(origin as int, fx_mul(rho as int, dir as int)),
        -FIX_SAT <= p <= FIX_SAT,
{
    proof {
        crate::fix::lemma_fx_mul_bound(rho as int, dir as int, FIX_SAT as int, SCALE as int);
        crate::fix::lemma_fx_mul_sat_exact(rho as int, dir as int);
    }
    let step = mul_sat(rho, dir);
    add_sat(origin, step)
}

/// The product of two trigonometric values, which stays within one unit.
fn trig_mul(a: i64, b: i64) -> (r: i64)
    requires
        -SCALE <= a <= SCALE,
        -SCALE <= b <= SCALE,
    ensures
        r as int == fx_mul(a as int, b as int),
        -SCALE <= r <= SCALE,
{
    proof {
        crate::fix::lemma_fx_mul_bound(a as int, b as int, SCALE as int, SCALE as int);
        crate::fix::lemma_fx_mul_sat_exact(a as int, b as int);
    }
    mul_sat(a, b)
}

impl OrbitCameraPlugin {
    /// Applies a frame's orbit and pan intents to one camera's pose, given
    /// the transform derived in the previous tick (whose axes pan moves
    /// along) and the elapsed frame time. Orbit subtracts the scaled delta
    /// from both angles and clamps only the azimuthal one; pan moves the
    /// pivot along the camera's right and up axes. A disabled camera is left
    /// untouched.
    pub fn mouse_motion_system(
        camera: &mut OrbitCamera,
        transform: &DerivedTransform,
        events: &Vec<CameraEvents>,
        dt: i64,
    )
        requires
            old(camera).wf(),
            transform.basis_wf(),
            events_bounded(events@),
            0 <= dt <= FIX_BOUND,
        ensures
            final(camera).config_wf(),
            final(camera).pose_wf(),
            final(camera).rho == old(camera).rho,
            final(camera).theta_range == old(camera).theta_range,
            final(camera).phi_range == old(camera).phi_range,
            final(camera).rho_range == old(camera).rho_range,
            final(camera).rotate_sensitivity == old(camera).rotate_sensitivity,
            final(camera).pan_sensitivity == old(camera).pan_sensitivity,
            final(camera).zoom_sensitivity == old(camera).zoom_sensitivity,
            final(camera).rotate_button == old(camera).rotate_button,
            final(camera).pan_button == old(camera).pan_button,
            final(camera).enabled == old(camera).enabled,
            old(camera).enabled ==> final(camera).theta as int == theta_after(
                old(camera).theta as int,
                events@,
                old(camera).rotate_sensitivity as int,
                dt as int,
            ),
            old(camera).enabled ==> final(camera).phi as int == phi_after(
                old(camera).phi as int,
                events@,
                old(camera).rotate_sensitivity as int,
                dt as int,
                old(camera).phi_range.lo as int,
                old(camera).phi_range.hi as int,
            ),
            old(camera).enabled ==> final(camera).origin.x as int == pivot_after(
                old(camera).origin.x as int,
                events@,
                transform.right.x as int,
                transform.up.x as int,
                old(camera).pan_sensitivity as int,
                dt as int,
            ),
            old(camera).enabled ==> final(camera).origin.y as int == pivot_after(
                old(camera).origin.y as int,
                events@,
                transform.right.y as int,
                transform.up.y as int,
                old(camera).pan_sensitivity as int,
                dt as int,
            ),
            old(camera).enabled ==> final(camera).origin.z as int == pivot_after(
                old(camera).origin.z as int,
                events@,
                transform.right.z as int,
                transform.up.z as int,
                old(camera).pan_sensitivity as int,
                dt as int,
            ),
            !old(camera).enabled ==> *final(camera) == *old(camera),
    {
        if !camera.enabled {
            return;
        }
        let ghost cam0 = *camera;
        let n = events.len();
        let mut i: usize = 0;
        while i < n
            invariant
                i <= n,
                n == events@.len(),
                events_bounded(events@),
                0 <= dt <= FIX_BOUND,
                transform.basis_wf(),
                cam0.wf(),
                cam0.enabled,
                camera.rho == cam0.rho,
                camera.theta_range == cam0.theta_range,
                camera.phi_range == cam0.phi_range,
                camera.rho_range == cam0.rho_range,
                camera.rotate_sensitivity == cam0.rotate_sensitivity,
                camera.pan_sensitivity == cam0.pan_sensitivity,
                camera.zoom_sensitivity == cam0.zoom_sensitivity,
                camera.rotate_button == cam0.rotate_button,
                camera.pan_button == cam0.pan_button,
                camera.enabled == cam0.enabled,
                -FIX_SAT <= camera.theta <= FIX_SAT,
                -FIX_SAT <= camera.phi <= FIX_SAT,
                -FIX_SAT <= camera.origin.x <= FIX_SAT,
                -FIX_SAT <= camera.origin.y <= FIX_SAT,
                -FIX_SAT <= camera.origin.z <= FIX_SAT,
                camera.theta as int == theta_after(
                    cam0.theta as int,
                    events@.take(i as int),
                    cam0.rotate_sensitivity as int,
                    dt as int,
                ),
                camera.phi as int == phi_after(
                    cam0.phi as int,
                    events@.take(i as int),
                    cam0.rotate_sensitivity as int,
                    dt as int,
                    cam0.phi_range.lo as int,
                    cam0.phi_range.hi as int,
                ),
                camera.origin.x as int == pivot_after(
                    cam0.origin.x as int,
                    events@.take(i as int),
                    transform.right.x as int,
                    transform.up.x as int,
                    cam0.pan_sensitivity as int,
                    dt as int,
                ),
                camera.origin.y as int == pivot_after(
                    cam0.origin.y as int,
                    events@.take(i as int),
                    transform.right.y as int,
                    transform.up.y as int,
                    cam0.pan_sensitivity as int,
                    dt as int,
                ),
                camera.origin.z as int == pivot_after(
                    cam0.origin.z as int,
                    events@.take(i as int),
                    transform.right.z as int,
                    transform.up.z as int,
                    cam0.pan_sensitivity as int,
                    dt as int,
                ),
            decreases n - i,
        {
            proof {
                assert(events@.take(i as int + 1).drop_last() =~= events@.take(i as int));
                assert(events@.take(i as int + 1).last() == events@[i as int]);
                assert(event_bounded(events@[i as int]));
            }
            let ev = events[i];
            match ev {
                CameraEvents::Orbit(d) => {
                    let cx = scaled_contribution(d.x, camera.rotate_sensitivity, dt);
                    let cy = scaled_contribution(d.y, camera.rotate_sensitivity, dt);
                    camera.theta = sub_sat(camera.theta, cx);
                    let phi_raw = sub_sat(camera.phi, cy);
                    camera.phi = clamp_fix(phi_raw, camera.phi_range.lo, camera.phi_range.hi);
                },
                CameraEvents::Pan(d) => {
                    let nx = pan_component(
                        camera.origin.x,
                        d.x,
                        d.y,
                        transform.right.x,
                        transform.up.x,
                        camera.pan_sensitivity,
                        dt,
                    );
                    let ny = pan_component(
                        camera.origin.y,
                        d.x,
                        d.y,
                        transform.right.y,
                        transform.up.y,
                        camera.pan_sensitivity,
                        dt,
                    );
                    let nz = pan_component(
                        camera.origin.z,
                        d.x,
                        d.y,
                        transform.right.z,
                        transform.up.z,
                        camera.pan_sensitivity,
                        dt,
                    );
                    camera.origin = Vec3 { x: nx, y: ny, z: nz };
                },
                CameraEvents::Zoom(_) => {},
            }
            i = i + 1;
        }
        proof {
            assert(events@.take(n as int) =~= events@);
        }
    }
}

/// The radius moved by one zoom intent; see `zoom_step_rho`.
pub fn zoom_apply(rho: i64, sens: i64, s: i64) -> (r: i64)
    requires
        1 <= rho <= FIX_SAT,
        0 <= sens <= FIX_BOUND,
        -FIX_BOUND <= s <= FIX_BOUND,
    ensures
        r as int == zoom_step_rho(rho as int, sens as int, s as int),
        1 <= r <= FIX_SAT,
{
    if s >= 0 {
        let factor = crate::fix::pow_fix(sens, s);
        let z = mul_sat(rho, factor);
        if z < 1 {
            1
        } else {
            z
        }
    } else {
        let factor = crate::fix::pow_fix(sens, -s);
        if factor == 0 {
            FIX_SAT
        } else {
            let z = crate::fix::div_sat(rho, factor);
            if z < 1 {
                1
            } else {
                z
            }
        }
    }
}

impl OrbitCameraPlugin {
    /// Applies a frame's zoom intents to one camera's radius; each one scales
    /// it by the zoom base raised to the scrolled amount. A disabled camera
    /// is left untouched.
    pub fn zoom_system(camera: &mut OrbitCamera, events: &Vec<CameraEvents>)
        requires
            old(camera).wf(),
            events_bounded(events@),
        ensures
            final(camera).config_wf(),
            final(camera).pose_wf(),
            final(camera).theta == old(camera).theta,
            final(camera).phi == old(camera).phi,
            final(camera).origin == old(camera).origin,
            final(camera).theta_range == old(camera).theta_range,
            final(camera).phi_range == old(camera).phi_range,
            final(camera).rho_range == old(camera).rho_range,
            final(camera).rotate_sensitivity == old(camera).rotate_sensitivity,
            final(camera).pan_sensitivity == old(camera).pan_sensitivity,
            final(camera).zoom_sensitivity == old(camera).zoom_sensitivity,
            final(camera).rotate_button == old(camera).rotate_button,
            final(camera).pan_button == old(camera).pan_button,
            final(camera).enabled == old(camera).enabled,
            old(camera).enabled ==> final(camera).rho as int == rho_after(
                old(camera).rho as int,
                events@,
                old(camera).zoom_sensitivity as int,
            ),
            !old(camera).enabled ==> *final(camera) == *old(camera),
    {
        if !camera.enabled {
            return;
        }
        let ghost cam0 = *camera;
        let n = events.len();
        let mut i: usize = 0;
        while i < n
            invariant
                i <= n,
                n == events@.len(),
                events_bounded(events@),
                cam0.wf(),
                *camera == (OrbitCamera { rho: camera.rho, ..cam0 }),
                1 <= camera.rho <= FIX_SAT,
                camera.rho as int == rho_after(
                    cam0.rho as int,
                    events@.take(i as int),
                    cam0.zoom_sensitivity as int,
                ),
            decreases n - i,
        {
            proof {
                assert(events@.take(i as int + 1).drop_last() =~= events@.take(i as int));
                assert(events@.take(i as int + 1).last() == events@[i as int]);
                assert(event_bounded(events@[i as int]));
            }
            let ev = events[i];
            match ev {
                CameraEvents::Zoom(s) => {
                    camera.rho = zoom_apply(camera.rho, camera.zoom_sensitivity, s);
                },
                _ => {},
            }
            i = i + 1;
        }
        proof {
            assert(events@.take(n as int) =~= events@);
        }
    }

    /// Derives the world transform of an enabled camera from its pose and
    /// the trigonometric sample of its angles. A disabled camera's transform
    /// is left frozen at its last value.
    pub fn update_transform_system(
        camera: &OrbitCamera,
        trig: &TrigSample,
        transform: &mut DerivedTransform,
    )
        requires
            camera.pose_wf(),
            trig.wf(),
        ensures
            camera.enabled ==> derive_rel(*camera, *trig, *final(transform)),
            camera.enabled ==> final(transform).basis_wf(),
            !camera.enabled ==> *final(transform) == *old(transform),
    {
        if !camera.enabled {
            return;
        }
        let st = trig.sin_theta;
        let ct = trig.cos_theta;
        let sp = trig.sin_phi;
        let cp = trig.cos_phi;
        let dir_x = -trig_mul(sp, st);
        let dir_y = cp;
        let dir_z = -trig_mul(sp, ct);
        let position = Vec3 {
            x: position_component(camera.origin.x, camera.rho, dir_x),
            y: position_component(camera.origin.y, camera.rho, dir_y),
            z: position_component(camera.origin.z, camera.rho, dir_z),
        };
        let right = Vec3 { x: ct, y: 0, z: -st };
        let up = Vec3 { x: trig_mul(cp, st), y: sp, z: trig_mul(cp, ct) };
        let forward = Vec3 { x: trig_mul(sp, st), y: -cp, z: trig_mul(sp, ct) };
        *transform = DerivedTransform { position, right, up, forward };
    }
}

/// Everything orbit intents subtract from the polar angle over a frame,
/// before any saturation.
pub open spec fn orbit_total(events: Seq<CameraEvents>, sens: int, dt: int) -> int
    decreases events.len(),
{
    if events.len() == 0 {
        0
    } else {
        let prev = orbit_total(events.drop_last(), sens, dt);
        match events.last() {
            CameraEvents::Orbit(d) => prev + fx_mul(fx_mul(d.x as int, sens), dt),
            _ => prev,
        }
    }
}

/// After any non-empty run of orbit intents the azimuthal angle lies within
/// its configured range, whatever it was before.
pub proof fn lemma_orbit_phi_in_range(
    phi: int,
    events: Seq<CameraEvents>,
    sens: int,
    dt: int,
    lo: int,
    hi: int,
)
    requires
        lo <= hi,
        events.len() >= 1,
        forall|i: int| 0 <= i < events.len() ==> (#[trigger] events[i]) is Orbit,
    ensures
        lo <= phi_after(phi, events, sens, dt, lo, hi) <= hi,
{
    assert(events[events.len() - 1] is Orbit);
}

/// Once the azimuthal angle lies within its configured range, no run of
/// events of any kind moves it out.
pub proof fn lemma_phi_range_invariant(
    phi: int,
    events: Seq<CameraEvents>,
    sens: int,
    dt: int,
    lo: int,
    hi: int,
)
    requires
        lo <= hi,
        lo <= phi <= hi,
    ensures
        lo <= phi_after(phi, events, sens, dt, lo, hi) <= hi,
    decreases events.len(),
{
    if events.len() > 0 {
        lemma_phi_range_invariant(phi, events.drop_last(), sens, dt, lo, hi);
    }
}

/// The polar angle accumulates the scaled orbit deltas exactly, with no
/// range applied: as long as the running value stays inside the saturation
/// limit, the angle after a frame is the starting angle minus the total, even
/// far outside the configured polar range.
pub proof fn lemma_orbit_theta_accumulates(
    theta: int,
    events: Seq<CameraEvents>,
    sens: int,
    dt: int,
)
    requires
        forall|i: int| 0 <= i <= events.len() ==> -(FIX_SAT as int) <= theta - orbit_total(
            #[trigger] events.take(i),
            sens,
            dt,
        ) <= FIX_SAT as int,
    ensures
        theta_after(theta, events, sens, dt) == theta - orbit_total(events, sens, dt),
    decreases events.len(),
{
    if events.len() == 0 {
        assert(events.take(0) =~= events);
    } else {
        let pre = events.drop_last();
        assert forall|i: int| 0 <= i <= pre.len() implies -(FIX_SAT as int) <= theta
            - orbit_total(#[trigger] pre.take(i), sens, dt) <= FIX_SAT as int by {
            assert(pre.take(i) =~= events.take(i));
        }
        lemma_orbit_theta_accumulates(theta, pre, sens, dt);
        assert(events.take(events.len() as int) =~= events);
        assert(events.take(pre.len() as int) =~= pre);
    }
}

/// Scrolling toward the pivot shrinks the radius strictly: any positive zoom
/// amount with a zoom base below one lands strictly below the old radius.
/// (The one exception is a radius already at the one-unit floor, which the
/// positivity guard keeps there.)
pub proof fn lemma_zoom_in_shrinks(rho: int, sens: int, s: int)
    requires
        2 <= rho <= FIX_SAT as int,
        0 <= sens < SCALE as int,
        1 <= s,
    ensures
        1 <= zoom_step_rho(rho, sens, s) < rho,
{
    crate::fix::lemma_fx_pow_below_one(sens, s);
    let f = crate::fix::fx_pow(sens, s);
    assert(rho * f < (SCALE as int) * rho) by (nonlinear_arith)
        requires
            0 <= f < SCALE as int,
            2 <= rho,
    ;
    assert(0 <= rho * f) by (nonlinear_arith)
        requires
            0 <= f,
            0 <= rho,
    ;
    vstd::arithmetic::div_mod::lemma_multiply_divide_lt(rho * f, SCALE as int, rho);
    vstd::arithmetic::div_mod::lemma_div_pos_is_pos(rho * f, SCALE as int);
}

/// Scrolling away from the pivot grows the radius strictly: any negative
/// zoom amount with a zoom base below one lands strictly above the old
/// radius, for radii of at least one between the ticks' input bounds.
pub proof fn lemma_zoom_out_grows(rho: int, sens: int, s: int)
    requires
        SCALE as int <= rho <= FIX_BOUND as int,
        0 <= sens < SCALE as int,
        s <= -1,
    ensures
        zoom_step_rho(rho, sens, s) > rho,
{
    crate::fix::lemma_fx_pow_below_one(sens, -s);
    let f = crate::fix::fx_pow(sens, -s);
    if f == 0 {
    } else {
        let s_int = SCALE as int;
        assert((rho + 1) * f <= rho * s_int) by (nonlinear_arith)
            requires
                1 <= f <= s_int - 1,
                s_int <= rho,
                0 < s_int,
        ;
        assert(0 <= rho * s_int) by (nonlinear_arith)
            requires
                0 <= rho,
                0 <= s_int,
        ;
        vstd::arithmetic::div_mod::lemma_div_is_ordered((rho + 1) * f, rho * s_int, f);
        vstd::arithmetic::div_mod::lemma_div_by_multiple(rho + 1, f);
        assert((rho * s_int) / f >= rho + 1);
        vstd::arithmetic::div_mod::lemma_div_is_ordered_by_denominator(rho * s_int, 1, f);
        crate::fix::lemma_mul_le(rho, s_int, FIX_BOUND as int, s_int);
        assert((rho * s_int) / 1 == rho * s_int) by {
            vstd::arithmetic::div_mod::lemma_div_multiples_vanish(rho * s_int, 1);
        }
        assert((rho * s_int) / f <= FIX_SAT as int);
    }
}

/// A pan intent with a zero delta leaves the pivot exactly where it was,
/// whatever the camera's orientation, sensitivity, or frame time.
pub proof fn lemma_pan_zero_delta(p: int, r: int, u: int, sens: int, dt: int)
    requires
        -(FIX_SAT as int) <= p <= FIX_SAT as int,
    ensures
        pan_step(p, 0, 0, r, u, sens, dt) == p,
{
    assert(crate::fix::fx_abs(0) * crate::fix::fx_abs(r) == 0) by (nonlinear_arith);
    assert(crate::fix::fx_abs(0) * crate::fix::fx_abs(u) == 0) by (nonlinear_arith);
    assert(0int / (SCALE as int) == 0);
    assert(fx_mul(0, r) == 0);
    assert(fx_mul(0, u) == 0);
    assert(sat_add(0, 0) == 0);
    assert(crate::fix::fx_abs(0) * crate::fix::fx_abs(sens) == 0) by (nonlinear_arith);
    assert(fx_mul(0, sens) == 0);
    assert(crate::fix::fx_abs(0) * crate::fix::fx_abs(dt) == 0) by (nonlinear_arith);
    assert(fx_mul(0, dt) == 0);
}

/// One scrolled pixel counts a tenth of a scrolled line, exactly: a pixel
/// event of ten times the magnitude contributes what the line event does.
pub proof fn lemma_scroll_unit_conversion(px: ScrollEvent, ln: ScrollEvent)
    requires
        px.unit == ScrollUnit::Pixel,
        ln.unit == ScrollUnit::Line,
        px.amount as int == 10 * (ln.amount as int),
    ensures
        scroll_contribution(px) == scroll_contribution(ln),
{
    let a = ln.amount as int;
    let ratio = LINE_TO_PIXEL_RATIO as int;
    assert(crate::fix::fx_abs(10 * a) * crate::fix::fx_abs(ratio) == crate::fix::fx_abs(a) * (
    SCALE as int)) by (nonlinear_arith)
        requires
            ratio == 100_000,
            SCALE == 1_000_000,
            crate::fix::fx_abs(10 * a) == if 10 * a < 0 {
                -(10 * a)
            } else {
                10 * a
            },
            crate::fix::fx_abs(a) == if a < 0 {
                -a
            } else {
                a
            },
    ;
    vstd::arithmetic::div_mod::lemma_div_multiples_vanish(crate::fix::fx_abs(a), SCALE as int);
    assert((SCALE as int) * crate::fix::fx_abs(a) == crate::fix::fx_abs(a) * (SCALE as int))
        by (nonlinear_arith);
}

/// Deriving the transform from an unchanged pose is deterministic: two
/// transforms derived from the same pose and trigonometric sample are
/// identical in every component.
pub proof fn lemma_derive_deterministic(
    cam: OrbitCamera,
    trig: TrigSample,
    a: DerivedTransform,
    b: DerivedTransform,
)
    requires
        derive_rel(cam, trig, a),
        derive_rel(cam, trig, b),
    ensures
        a == b,
{
    assert(a.position == b.position);
    assert(a.right == b.right);
    assert(a.up == b.up);
    assert(a.forward == b.forward);
}

} // verus!
