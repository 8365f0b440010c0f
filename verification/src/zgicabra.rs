//! The per-tick derivation pipeline: wand state, joystick
//! classification, edge detection, and the note/gesture state machine.
//!
//! Every continuous quantity is fixed-point (milli-units, 1000 = 1.0).
//! The exec functions mirror the ghost `derived_*` functions exactly,
//! so a tick's whole output is pinned down by `update`'s contract.

use vstd::prelude::*;

verus! {

use vstd::math::abs;
use crate::functions::Vec3;
use crate::functions::Vec4;
use crate::functions::tdiv;
use crate::functions::clamped;
use crate::functions::sqrt_floor;
use crate::functions::is_sqrt_floor;
use crate::functions::lemma_sqrt_floor_unique;
use crate::functions::smoothstep_spec;
use crate::functions::clamp_i64;
use crate::functions::div_trunc;
use crate::functions::isqrt;
use crate::functions::hyp;
use crate::functions::smoothstep;
use crate::functions::button_mask;
use crate::functions::abs_i64;
use crate::functions::wrap_u8;
use crate::hydra::ControllerFrame;
use crate::hydra::HydraState;
use crate::hydra::frame_wf;
use crate::hydra::hydra_wf;
use crate::hydra::POS_LIMIT;
use crate::hydra::LEFT_HAND;
use crate::hydra::RIGHT_HAND;
use crate::hydra::BUTTON_JOYCLICK;
use crate::hydra::BUTTON_BUMPER;
use crate::hydra::BUTTON_HOME;
use crate::hydra::BUTTON_1;
use crate::hydra::BUTTON_2;
use crate::hydra::BUTTON_3;
use crate::hydra::BUTTON_4;

/// Joystick deflections below this radius (milli-units) have no
/// direction.
pub const JOYSTICK_DEADZONE: i64 = 150;

//
// Data Types
//

#[derive(Clone, Copy, Debug, PartialEq, Eq, Structural)]
pub enum Voice {
    Classic,
    Eternal,
    Pennysack,
    Submission,
}

#[derive(Clone, Copy, Debug, PartialEq, Eq, Structural)]
pub enum Hand {
    Neither,
    Left,
    Right,
}

/// A compass direction of joystick deflection, or `Neutral` inside the
/// deadzone.
#[derive(Clone, Copy, Debug, PartialEq, Eq, Structural)]
pub enum Direction {
    Neutral,
    Left,
    UpLeft,
    Up,
    UpRight,
    Right,
    DownRight,
    Down,
    DownLeft,
}

/// The four logical buttons of one wand, remapped so that the same
/// index means the mirror-symmetric physical button on either hand.
#[derive(Clone, Copy, Debug, PartialEq, Eq, Structural)]
pub struct Buttons {
    pub b0: bool,
    pub b1: bool,
    pub b2: bool,
    pub b3: bool,
}

impl Buttons {
    /// All buttons released.
    pub fn clear() -> (b: Buttons)
        ensures
            b == (Buttons { b0: false, b1: false, b2: false, b3: false }),
    {
        Buttons { b0: false, b1: false, b2: false, b3: false }
    }
}

#[derive(Clone, Copy, Debug, PartialEq, Eq, Structural)]
pub struct Joystick {
    pub x: i64,
    pub y: i64,
    pub r: i64,
    pub quadrant: Direction,
    pub octant: Direction,
    pub clicked: bool,
}

impl Joystick {
    /// A centred, unclicked joystick.
    pub fn new() -> (j: Joystick)
        ensures
            j == Joystick::new_spec(),
    {
        Joystick {
            x: 0,
            y: 0,
            r: 0,
            quadrant: Direction::Neutral,
            octant: Direction::Neutral,
            clicked: false,
        }
    }

    /// The ghost value of the centred joystick.
    pub open spec fn new_spec() -> Joystick {
        Joystick {
            x: 0,
            y: 0,
            r: 0,
            quadrant: Direction::Neutral,
            octant: Direction::Neutral,
            clicked: false,
        }
    }
}

#[derive(Clone, Copy, Debug)]
pub struct Wand {
    pub pos: Vec3,
    pub rot: Vec4,
    pub vel: Vec3,
    pub acc: Vec3,
    pub jerk: Vec3,
    pub pitch: i64,
    pub twist: i64,
    pub scalar_vel: i64,
    pub scalar_acc: i64,
    pub scalar_jerk: i64,
    pub trigger: i64,
    pub bumper: bool,
    pub home: bool,
    pub buttons: Buttons,
    pub stick: Joystick,
    pub hand: Hand,
}

/// The ranges every derived wand obeys; constructors establish them
/// and `update` preserves them from tick to tick.
pub open spec fn wand_wf(w: Wand) -> bool {
    &&& -POS_LIMIT <= w.pos.x <= POS_LIMIT
    &&& -POS_LIMIT <= w.pos.y <= POS_LIMIT
    &&& -POS_LIMIT <= w.pos.z <= POS_LIMIT
    &&& -2 * POS_LIMIT <= w.vel.x <= 2 * POS_LIMIT
    &&& -2 * POS_LIMIT <= w.vel.y <= 2 * POS_LIMIT
    &&& -2 * POS_LIMIT <= w.vel.z <= 2 * POS_LIMIT
    &&& -4 * POS_LIMIT <= w.acc.x <= 4 * POS_LIMIT
    &&& -4 * POS_LIMIT <= w.acc.y <= 4 * POS_LIMIT
    &&& -4 * POS_LIMIT <= w.acc.z <= 4 * POS_LIMIT
    &&& -8 * POS_LIMIT <= w.jerk.x <= 8 * POS_LIMIT
    &&& -8 * POS_LIMIT <= w.jerk.y <= 8 * POS_LIMIT
    &&& -8 * POS_LIMIT <= w.jerk.z <= 8 * POS_LIMIT
    &&& 0 <= w.scalar_vel <= 4 * POS_LIMIT
    &&& 0 <= w.scalar_acc <= 7 * POS_LIMIT
    &&& 0 <= w.scalar_jerk <= 14 * POS_LIMIT
    &&& -1000 <= w.pitch <= 1000
    &&& -2000 <= w.twist <= 2000
    &&& 0 <= w.trigger <= 1000
    &&& -1000 <= w.stick.x <= 1000
    &&& -1000 <= w.stick.y <= 1000
    &&& 0 <= w.stick.r <= 1500
}

impl Wand {
    /// An at-rest wand with no identity: the synthetic previous state
    /// for the very first tick.
    pub fn new() -> (w: Wand)
        ensures
            w == Wand::new_spec(),
            wand_wf(w),
    {
        Wand {
            pos: Vec3::zero(),
            rot: Vec4::zero(),
            vel: Vec3::zero(),
            acc: Vec3::zero(),
            jerk: Vec3::zero(),
            pitch: 0,
            twist: 0,
            scalar_vel: 0,
            scalar_acc: 0,
            scalar_jerk: 0,
            trigger: 0,
            bumper: false,
            home: false,
            buttons: Buttons::clear(),
            stick: Joystick::new(),
            hand: Hand::Neither,
        }
    }

    /// The ghost value of the at-rest wand.
    pub open spec fn new_spec() -> Wand {
        Wand {
            pos: Vec3 { x: 0, y: 0, z: 0 },
            rot: Vec4 { x: 0, y: 0, z: 0, w: 0 },
            vel: Vec3 { x: 0, y: 0, z: 0 },
            acc: Vec3 { x: 0, y: 0, z: 0 },
            jerk: Vec3 { x: 0, y: 0, z: 0 },
            pitch: 0,
            twist: 0,
            scalar_vel: 0,
            scalar_acc: 0,
            scalar_jerk: 0,
            trigger: 0,
            bumper: false,
            home: false,
            buttons: Buttons { b0: false, b1: false, b2: false, b3: false },
            stick: Joystick::new_spec(),
            hand: Hand::Neither,
        }
    }
}

#[derive(Clone, Copy, Debug, PartialEq, Eq, Structural)]
pub struct NoteState {
    pub on: bool,
    pub root: u8,
    pub bend: i64,
    pub current: u8,
}

impl NoteState {
    /// The idle note state: silent, root note 42.
    pub fn new() -> (n: NoteState)
        ensures
            n == (NoteState { on: false, root: 42u8, bend: 0i64, current: 0u8 }),
    {
        NoteState { on: false, root: 42, bend: 0, current: 0 }
    }
}

#[derive(Clone, Copy, Debug, PartialEq, Eq, Structural)]
pub struct SignalState {
    pub filter: i64,
    pub fuzz: i64,
    pub width: i64,
    pub thump: i64,
    pub velocity: i64,
    pub acceleration: i64,
    pub jerk: i64,
}

impl SignalState {
    /// All control levels at zero.
    pub fn new() -> (s: SignalState)
        ensures
            s == (SignalState {
                filter: 0i64,
                fuzz: 0i64,
                width: 0i64,
                thump: 0i64,
                velocity: 0i64,
                acceleration: 0i64,
                jerk: 0i64,
            }),
    {
        SignalState { filter: 0, fuzz: 0, width: 0, thump: 0, velocity: 0, acceleration: 0, jerk: 0 }
    }
}

//
// Delta Events
//

#[derive(Clone, Copy, Debug, PartialEq, Eq, Structural)]
pub enum DeltaEvent {
    NoteStart(u8),
    NoteChange(u8, u8),
    NoteEnd(u8),
    FilterLevel(i64),
    FuzzLevel(i64),
    WidthLevel(i64),
    PitchBend(i64),
    VoiceChange(Voice),
    TuneUp(),
    TuneDown(),
    NextVoice(),
    PrevVoice(),
    ThumpToggle(),
    FuzzToggle(),
    Panic(),
}

//
// Main Datatype
//

#[derive(Clone, Copy, Debug)]
pub struct Zgicabra {
    pub left: Wand,
    pub right: Wand,
    pub separation: i64,
    pub docked: bool,
    pub level: i64,
    pub sequence_number: u8,
    pub note: NoteState,
    pub signal: SignalState,
    pub voice: Voice,
}

/// The ranges a signal state's control levels stay within: generous
/// caps matching the largest smoothed kinematic magnitude.
pub open spec fn signal_wf(s: SignalState) -> bool {
    &&& -14_000_000 <= s.filter <= 14_000_000
    &&& -14_000_000 <= s.fuzz <= 14_000_000
    &&& -14_000_000 <= s.width <= 14_000_000
    &&& -14_000_000 <= s.thump <= 14_000_000
    &&& -14_000_000 <= s.velocity <= 14_000_000
    &&& -14_000_000 <= s.acceleration <= 14_000_000
    &&& -14_000_000 <= s.jerk <= 14_000_000
}

/// The ranges every derived combined state obeys.
pub open spec fn zgicabra_wf(z: Zgicabra) -> bool {
    &&& wand_wf(z.left)
    &&& wand_wf(z.right)
    &&& 0 <= z.separation <= 2 * POS_LIMIT
    &&& 0 <= z.level <= 1000
    &&& -1000 <= z.note.bend <= 1000
}

impl Zgicabra {
    /// The all-idle instrument state that seeds the first comparison.
    pub fn new() -> (z: Zgicabra)
        ensures
            z.left == Wand::new_spec(),
            z.right == Wand::new_spec(),
            z.separation == 0,
            !z.docked,
            z.level == 0,
            z.sequence_number == 0,
            z.note == (NoteState { on: false, root: 42u8, bend: 0i64, current: 0u8 }),
            z.signal == (SignalState {
                filter: 0i64,
                fuzz: 0i64,
                width: 0i64,
                thump: 0i64,
                velocity: 0i64,
                acceleration: 0i64,
                jerk: 0i64,
            }),
            z.voice == Voice::Classic,
            zgicabra_wf(z),
    {
        Zgicabra {
            left: Wand::new(),
            right: Wand::new(),
            separation: 0,
            docked: false,
            level: 0,
            sequence_number: 0,
            note: NoteState::new(),
            signal: SignalState::new(),
            voice: Voice::Classic,
        }
    }
}

//
// Joystick classification
//

/// The fine 8-way classification of a deflection `(x, y)`, or
/// `Neutral` inside the deadzone. The 45-degree sectors are centred on
/// the compass directions; their 22.5-degree boundaries are decided
/// exactly, by comparing squares (for integer deflections the diagonal
/// boundaries can never be hit exactly).
pub open spec fn octant_of(x: int, y: int) -> Direction {
    let ax = abs(x);
    let ay = abs(y);
    if x * x + y * y < JOYSTICK_DEADZONE * JOYSTICK_DEADZONE {
        Direction::Neutral
    } else if ay > ax && 2 * ax * ax < (ay - ax) * (ay - ax) {
        if y > 0 {
            Direction::Up
        } else {
            Direction::Down
        }
    } else if ax > ay && 2 * ay * ay < (ax - ay) * (ax - ay) {
        if x > 0 {
            Direction::Right
        } else {
            Direction::Left
        }
    } else if x > 0 {
        if y > 0 {
            Direction::UpRight
        } else {
            Direction::DownRight
        }
    } else {
        if y > 0 {
            Direction::UpLeft
        } else {
            Direction::DownLeft
        }
    }
}

/// The coarse 4-way classification: 90-degree sectors centred on the
/// four cardinal directions, boundaries on the 45-degree diagonals.
/// The north-east diagonal belongs to `Up`, the south-east to `Right`,
/// the south-west to `Down`, and the north-west to `Left`.
pub open spec fn quadrant_of(x: int, y: int) -> Direction {
    if x * x + y * y < JOYSTICK_DEADZONE * JOYSTICK_DEADZONE {
        Direction::Neutral
    } else if y > 0 && -y < x <= y {
        Direction::Up
    } else if x > 0 && -x <= y < x {
        Direction::Right
    } else if y < 0 && y <= x < -y {
        Direction::Down
    } else {
        Direction::Left
    }
}

/// The coarse classification of a joystick's deflection.
pub fn joystick_quadrant(stick: &Joystick) -> (d: Direction)
    requires
        -1000 <= stick.x <= 1000,
        -1000 <= stick.y <= 1000,
        stick.r == sqrt_floor(stick.x * stick.x + stick.y * stick.y),
    ensures
        d == quadrant_of(stick.x as int, stick.y as int),
{
    proof {
        lemma_r_vs_deadzone(stick.x as int, stick.y as int, stick.r as int);
    }
    if stick.r < JOYSTICK_DEADZONE {
        Direction::Neutral
    } else {
        let x = stick.x;
        let y = stick.y;
        if y > 0 && -y < x && x <= y {
            Direction::Up
        } else if x > 0 && -x <= y && y < x {
            Direction::Right
        } else if y < 0 && y <= x && x < -y {
            Direction::Down
        } else {
            Direction::Left
        }
    }
}

/// The fine classification of a joystick's deflection.
pub fn joystick_octant(stick: &Joystick) -> (d: Direction)
    requires
        -1000 <= stick.x <= 1000,
        -1000 <= stick.y <= 1000,
        stick.r == sqrt_floor(stick.x * stick.x + stick.y * stick.y),
    ensures
        d == octant_of(stick.x as int, stick.y as int),
{
    proof {
        lemma_r_vs_deadzone(stick.x as int, stick.y as int, stick.r as int);
    }
    if stick.r < JOYSTICK_DEADZONE {
        Direction::Neutral
    } else {
        let x = stick.x;
        let y = stick.y;
        let ax = abs_i64(x);
        let ay = abs_i64(y);
        proof {
            assert(0 <= 2 * ax * ax <= 2_000_000) by (nonlinear_arith)
                requires
                    0 <= ax <= 1000,
            ;
            assert(0 <= 2 * ay * ay <= 2_000_000) by (nonlinear_arith)
                requires
                    0 <= ay <= 1000,
            ;
            assert(0 <= (ay - ax) * (ay - ax) <= 1_000_000) by (nonlinear_arith)
                requires
                    -1000 <= ay - ax <= 1000,
            ;
            assert(0 <= (ax - ay) * (ax - ay) <= 1_000_000) by (nonlinear_arith)
                requires
                    -1000 <= ax - ay <= 1000,
            ;
        }
        if ay > ax && 2 * ax * ax < (ay - ax) * (ay - ax) {
            if y > 0 {
                Direction::Up
            } else {
                Direction::Down
            }
        } else if ax > ay && 2 * ay * ay < (ax - ay) * (ax - ay) {
            if x > 0 {
                Direction::Right
            } else {
                Direction::Left
            }
        } else if x > 0 {
            if y > 0 {
                Direction::UpRight
            } else {
                Direction::DownRight
            }
        } else {
            if y > 0 {
                Direction::UpLeft
            } else {
                Direction::DownLeft
            }
        }
    }
}

/// For a radius computed as a square-root floor, comparing the radius
/// with the deadzone is the same as comparing the squared deflection
/// with the squared deadzone.
proof fn lemma_r_vs_deadzone(x: int, y: int, r: int)
    requires
        -1000 <= x <= 1000,
        -1000 <= y <= 1000,
        r == sqrt_floor(x * x + y * y),
    ensures
        (r < JOYSTICK_DEADZONE) <==> (x * x + y * y < JOYSTICK_DEADZONE * JOYSTICK_DEADZONE),
        0 <= r <= 1500,
{
    let n = x * x + y * y;
    assert(0 <= x * x <= 1_000_000) by (nonlinear_arith)
        requires
            -1000 <= x <= 1000,
    ;
    assert(0 <= y * y <= 1_000_000) by (nonlinear_arith)
        requires
            -1000 <= y <= 1000,
    ;
    lemma_sqrt_floor_exists(n);
    assert(is_sqrt_floor(n, r));
    if r < 150 {
        assert(n < (r + 1) * (r + 1));
        assert((r + 1) * (r + 1) <= 150 * 150) by (nonlinear_arith)
            requires
                0 <= r < 150,
        ;
    } else {
        assert(150 * 150 <= r * r) by (nonlinear_arith)
            requires
                r >= 150,
        ;
        assert(r * r <= n);
    }
    if r > 1500 {
        assert(r * r > 2_250_000) by (nonlinear_arith)
            requires
                r > 1500,
        ;
        assert(false);
    }
}

/// `sqrt_floor` is well defined for any bounded nonnegative input.
pub proof fn lemma_sqrt_floor_exists(n: int)
    requires
        0 <= n,
    ensures
        is_sqrt_floor(n, sqrt_floor(n)),
    decreases n,
{
    if n == 0 {
        assert(is_sqrt_floor(0, 0));
        assert(exists|x: int| is_sqrt_floor(0, x));
    } else {
        lemma_sqrt_floor_exists(n - 1);
        let r = sqrt_floor(n - 1);
        assert(is_sqrt_floor(n - 1, r));
        if n < (r + 1) * (r + 1) {
            assert(is_sqrt_floor(n, r));
            assert(exists|x: int| is_sqrt_floor(n, x));
        } else {
            assert(n == (r + 1) * (r + 1));
            assert((r + 1) * (r + 1) < (r + 2) * (r + 2)) by (nonlinear_arith)
                requires
                    0 <= r,
            ;
            assert(is_sqrt_floor(n, r + 1));
            assert(exists|x: int| is_sqrt_floor(n, x));
        }
    }
}

//
// Note lookup tables
//

/// Semitone offset contributed by the left stick's octant.
pub open spec fn note_offset(d: Direction) -> int {
    match d {
        Direction::Left => -4,
        Direction::UpLeft => -2,
        Direction::Up => 2,
        Direction::UpRight => 3,
        Direction::Right => 5,
        Direction::DownRight => 7,
        Direction::Down => 8,
        Direction::DownLeft => 10,
        _ => 0,
    }
}

/// Semitone modifier contributed by the right stick's octant.
pub open spec fn note_modifier(d: Direction) -> int {
    match d {
        Direction::Left => 1,
        Direction::Right => -1,
        Direction::Up => 12,
        Direction::Down => -12,
        Direction::UpLeft => 13,
        Direction::UpRight => 11,
        Direction::DownLeft => -11,
        Direction::DownRight => -13,
        _ => 0,
    }
}

/// Semitone offset selected by the left wand's stick.
pub fn stick_to_note_offset(wand: &Wand) -> (n: i8)
    ensures
        n == note_offset(wand.stick.octant),
{
    match wand.stick.octant {
        Direction::Left => -4,
        Direction::UpLeft => -2,
        Direction::Up => 2,
        Direction::UpRight => 3,
        Direction::Right => 5,
        Direction::DownRight => 7,
        Direction::Down => 8,
        Direction::DownLeft => 10,
        _ => 0,
    }
}

/// Semitone modifier selected by the right wand's stick.
pub fn stick_to_note_modifier(wand: &Wand) -> (n: i8)
    ensures
        n == note_modifier(wand.stick.octant),
{
    match wand.stick.octant {
        Direction::Left => 1,
        Direction::Right => -1,
        Direction::Up => 12,
        Direction::Down => -12,
        Direction::UpLeft => 13,
        Direction::UpRight => 11,
        Direction::DownLeft => -11,
        Direction::DownRight => -13,
        _ => 0,
    }
}

//
// Wand derivation (ghost mirror)
//

/// Sum of squared components of a vector.
pub open spec fn norm2(v: Vec3) -> int {
    v.x * v.x + v.y * v.y + v.z * v.z
}

/// The midpoint low-pass filter applied to one axis.
pub open spec fn midpoint(a: int, b: int) -> int {
    tdiv(a + b, 2)
}

/// The smoothed position: the midpoint of the raw position and the
/// previous tick's already-smoothed position.
pub open spec fn derived_pos(f: ControllerFrame, p: Wand) -> Vec3 {
    Vec3 {
        x: midpoint(f.pos.x as int, p.pos.x as int) as i64,
        y: midpoint(f.pos.y as int, p.pos.y as int) as i64,
        z: midpoint(f.pos.z as int, p.pos.z as int) as i64,
    }
}

/// The finite-difference operator on 3-vectors: `(a - b) / dt`
/// componentwise, truncating.
pub open spec fn d_r3(a: Vec3, b: Vec3, dt: int) -> Vec3 {
    Vec3 {
        x: tdiv(a.x - b.x, dt) as i64,
        y: tdiv(a.y - b.y, dt) as i64,
        z: tdiv(a.z - b.z, dt) as i64,
    }
}

/// The one-pole smoother: average of the instantaneous magnitude and
/// the previous tick's smoothed value.
pub open spec fn smoothed(h: int, s: int) -> int {
    tdiv(h + s, 2)
}

/// The hand identity a frame reports about itself.
pub open spec fn hand_of(which: u8) -> Hand {
    if which == LEFT_HAND {
        Hand::Left
    } else if which == RIGHT_HAND {
        Hand::Right
    } else {
        Hand::Neither
    }
}

/// The hand-symmetric logical button mapping: the raw bit layout
/// differs between the two physical controllers, so the same logical
/// index means the mirror-symmetric physical button. A frame with no
/// hand identity leaves the previous tick's buttons in place.
pub open spec fn derived_buttons(f: ControllerFrame, p: Wand) -> Buttons {
    if hand_of(f.which_hand) == Hand::Left {
        Buttons {
            b0: (f.buttons & BUTTON_4) != 0,
            b1: (f.buttons & BUTTON_2) != 0,
            b2: (f.buttons & BUTTON_1) != 0,
            b3: (f.buttons & BUTTON_3) != 0,
        }
    } else if hand_of(f.which_hand) == Hand::Right {
        Buttons {
            b0: (f.buttons & BUTTON_3) != 0,
            b1: (f.buttons & BUTTON_1) != 0,
            b2: (f.buttons & BUTTON_2) != 0,
            b3: (f.buttons & BUTTON_4) != 0,
        }
    } else {
        p.buttons
    }
}

/// The joystick state derived from a frame's axes: cartesian values,
/// square-root-floor radius, both classifications, and the click flag.
pub open spec fn derived_stick(f: ControllerFrame) -> Joystick {
    Joystick {
        x: f.joystick_x,
        y: f.joystick_y,
        r: sqrt_floor(f.joystick_x * f.joystick_x + f.joystick_y * f.joystick_y) as i64,
        quadrant: quadrant_of(f.joystick_x as int, f.joystick_y as int),
        octant: octant_of(f.joystick_x as int, f.joystick_y as int),
        clicked: (f.buttons & BUTTON_JOYCLICK) != 0,
    }
}

/// The full wand derived from one frame, the previous tick's wand and
/// the elapsed milliseconds: the ghost mirror of what `update` builds.
pub open spec fn derived_wand(f: ControllerFrame, p: Wand, dt: int) -> Wand {
    let pos = derived_pos(f, p);
    let vel = d_r3(pos, p.pos, dt);
    let acc = d_r3(vel, p.vel, dt);
    let jerk = d_r3(acc, p.acc, dt);
    Wand {
        pos: pos,
        rot: f.rot_quat,
        vel: vel,
        acc: acc,
        jerk: jerk,
        pitch: f.rot_quat.y,
        twist: (2 * f.rot_quat.z) as i64,
        scalar_vel: smoothed(sqrt_floor(norm2(vel)), p.scalar_vel as int) as i64,
        scalar_acc: smoothed(sqrt_floor(norm2(acc)), p.scalar_acc as int) as i64,
        scalar_jerk: smoothed(sqrt_floor(norm2(jerk)), p.scalar_jerk as int) as i64,
        trigger: f.trigger,
        bumper: (f.buttons & BUTTON_BUMPER) != 0,
        home: (f.buttons & BUTTON_HOME) != 0,
        buttons: derived_buttons(f, p),
        stick: derived_stick(f),
        hand: hand_of(f.which_hand),
    }
}

//
// Wand derivation (executable)
//

/// Derive the joystick state from the frame's axes and write it into
/// the wand.
pub fn copy_joystick_to_wand(frame: &ControllerFrame, wand: &mut Wand)
    requires
        frame_wf(*frame),
    ensures
        *final(wand) == (Wand { stick: derived_stick(*frame), ..*old(wand) }),
{
    let x = frame.joystick_x;
    let y = frame.joystick_y;
    proof {
        assert(0 <= x * x <= 1_000_000) by (nonlinear_arith)
            requires
                -1000 <= x <= 1000,
        ;
        assert(0 <= y * y <= 1_000_000) by (nonlinear_arith)
            requires
                -1000 <= y <= 1000,
        ;
    }
    let r = isqrt(x * x + y * y);
    let mut stick = Joystick {
        x,
        y,
        r,
        quadrant: Direction::Neutral,
        octant: Direction::Neutral,
        clicked: button_mask(frame.buttons, BUTTON_JOYCLICK),
    };
    stick.quadrant = joystick_quadrant(&stick);
    stick.octant = joystick_octant(&stick);
    wand.stick = stick;
}

/// Copy the immediately-derived values of one frame into a wand:
/// smoothed position, orientation scalars, trigger, buttons (remapped
/// per hand), hand identity and joystick. Velocity, acceleration,
/// jerk and their smoothed magnitudes are left untouched; `update`
/// fills them in afterwards.
pub fn copy_frame_to_wand(frame: &ControllerFrame, wand: &mut Wand, prev_wand: &Wand)
    requires
        frame_wf(*frame),
        wand_wf(*prev_wand),
    ensures
        final(wand).pos == derived_pos(*frame, *prev_wand),
        final(wand).rot == frame.rot_quat,
        final(wand).pitch == frame.rot_quat.y,
        final(wand).twist == 2 * frame.rot_quat.z,
        final(wand).trigger == frame.trigger,
        final(wand).bumper == ((frame.buttons & BUTTON_BUMPER) != 0),
        final(wand).home == ((frame.buttons & BUTTON_HOME) != 0),
        final(wand).hand == hand_of(frame.which_hand),
        final(wand).buttons == derived_buttons(*frame, *prev_wand),
        final(wand).stick == derived_stick(*frame),
        final(wand).vel == old(wand).vel,
        final(wand).acc == old(wand).acc,
        final(wand).jerk == old(wand).jerk,
        final(wand).scalar_vel == old(wand).scalar_vel,
        final(wand).scalar_acc == old(wand).scalar_acc,
        final(wand).scalar_jerk == old(wand).scalar_jerk,
        -POS_LIMIT <= final(wand).pos.x <= POS_LIMIT,
        -POS_LIMIT <= final(wand).pos.y <= POS_LIMIT,
        -POS_LIMIT <= final(wand).pos.z <= POS_LIMIT,
{
    wand.rot = frame.rot_quat;
    wand.pitch = frame.rot_quat.y;
    wand.twist = frame.rot_quat.z * 2;
    wand.trigger = frame.trigger;

    proof {
        crate::functions::lemma_tdiv_magnitude((frame.pos.x + prev_wand.pos.x) as int, 2);
        crate::functions::lemma_tdiv_magnitude((frame.pos.y + prev_wand.pos.y) as int, 2);
        crate::functions::lemma_tdiv_magnitude((frame.pos.z + prev_wand.pos.z) as int, 2);
    }
    wand.pos = Vec3 {
        x: div_trunc(frame.pos.x + prev_wand.pos.x, 2),
        y: div_trunc(frame.pos.y + prev_wand.pos.y, 2),
        z: div_trunc(frame.pos.z + prev_wand.pos.z, 2),
    };

    wand.bumper = button_mask(frame.buttons, BUTTON_BUMPER);
    wand.home = button_mask(frame.buttons, BUTTON_HOME);

    wand.hand = if frame.which_hand == LEFT_HAND {
        Hand::Left
    } else if frame.which_hand == RIGHT_HAND {
        Hand::Right
    } else {
        Hand::Neither
    };

    // The raw bit layout is mirrored between the two controllers.
    match wand.hand {
        Hand::Neither => {
            wand.buttons = prev_wand.buttons;
        },
        Hand::Left => {
            wand.buttons = Buttons {
                b0: button_mask(frame.buttons, BUTTON_4),
                b1: button_mask(frame.buttons, BUTTON_2),
                b2: button_mask(frame.buttons, BUTTON_1),
                b3: button_mask(frame.buttons, BUTTON_3),
            };
        },
        Hand::Right => {
            wand.buttons = Buttons {
                b0: button_mask(frame.buttons, BUTTON_3),
                b1: button_mask(frame.buttons, BUTTON_1),
                b2: button_mask(frame.buttons, BUTTON_2),
                b3: button_mask(frame.buttons, BUTTON_4),
            };
        },
    }

    copy_joystick_to_wand(frame, wand);
}

/// One finite-difference step: `(a - b) / delta` componentwise,
/// truncating toward zero.
pub fn derivative_r3(a: &Vec3, b: &Vec3, delta: i64) -> (d: Vec3)
    requires
        1 <= delta,
        -16 * POS_LIMIT <= a.x - b.x <= 16 * POS_LIMIT,
        -16 * POS_LIMIT <= a.y - b.y <= 16 * POS_LIMIT,
        -16 * POS_LIMIT <= a.z - b.z <= 16 * POS_LIMIT,
    ensures
        d == d_r3(*a, *b, delta as int),
        abs(d.x as int) <= abs(a.x - b.x),
        abs(d.y as int) <= abs(a.y - b.y),
        abs(d.z as int) <= abs(a.z - b.z),
{
    proof {
        crate::functions::lemma_tdiv_magnitude((a.x - b.x) as int, delta as int);
        crate::functions::lemma_tdiv_magnitude((a.y - b.y) as int, delta as int);
        crate::functions::lemma_tdiv_magnitude((a.z - b.z) as int, delta as int);
    }
    Vec3 {
        x: div_trunc(a.x - b.x, delta),
        y: div_trunc(a.y - b.y, delta),
        z: div_trunc(a.z - b.z, delta),
    }
}

/// A square-root floor is below `b` whenever the squared input is
/// below `b * b`.
proof fn lemma_sqrt_rel_below(n: int, r: int, b: int)
    requires
        0 <= r,
        r * r <= n,
        0 <= b,
        n < b * b,
    ensures
        r < b,
{
    if r >= b {
        assert(b * b <= r * r) by (nonlinear_arith)
            requires
                0 <= b <= r,
        ;
        assert(false);
    }
}

//
// Edge detection and the note state machine (ghost mirror)
//

/// The clamped elapsed time: at least one millisecond, so finite
/// differences never divide by zero.
pub open spec fn dt_of(ms: int) -> int {
    if ms < 1 {
        1
    } else {
        ms
    }
}

/// A trigger's rising edge: pressed now, fully released before.
pub open spec fn trigger_start(prev_t: int, curr_t: int) -> bool {
    curr_t > prev_t && prev_t == 0
}

/// A trigger's falling edge: fully released now, pressed before.
pub open spec fn trigger_end(prev_t: int, curr_t: int) -> bool {
    prev_t > curr_t && curr_t == 0
}

/// The note the sticks currently select: root plus the left stick's
/// offset plus the right stick's modifier, wrapped to a byte.
pub open spec fn target_note(root: u8, left_octant: Direction, right_octant: Direction) -> u8 {
    (((root as int) + note_offset(left_octant) + note_modifier(right_octant)) % 256) as u8
}

/// A note starts when either trigger shows a rising edge while no
/// note is sounding.
pub open spec fn note_started(n0: NoteState, pl: Wand, pr: Wand, cl: Wand, cr: Wand) -> bool {
    &&& trigger_start(pl.trigger as int, cl.trigger as int) || trigger_start(
        pr.trigger as int,
        cr.trigger as int,
    )
    &&& !n0.on
}

/// The sounding note ends on the left trigger's falling edge while
/// the right trigger is fully released.
pub open spec fn note_ended_left(n0: NoteState, pl: Wand, pr: Wand, cl: Wand, cr: Wand) -> bool {
    &&& n0.on || note_started(n0, pl, pr, cl, cr)
    &&& trigger_end(pl.trigger as int, cl.trigger as int)
    &&& cr.trigger == 0
}

/// The sounding note ends on the right trigger's falling edge while
/// the left trigger is fully released.
pub open spec fn note_ended_right(n0: NoteState, pl: Wand, pr: Wand, cl: Wand, cr: Wand) -> bool {
    &&& n0.on || note_started(n0, pl, pr, cl, cr)
    &&& !note_ended_left(n0, pl, pr, cl, cr)
    &&& trigger_end(pr.trigger as int, cr.trigger as int)
    &&& cl.trigger == 0
}

/// Whether a note is sounding once this tick's edges are processed.
pub open spec fn note_on_after(n0: NoteState, pl: Wand, pr: Wand, cl: Wand, cr: Wand) -> bool {
    &&& n0.on || note_started(n0, pl, pr, cl, cr)
    &&& !note_ended_left(n0, pl, pr, cl, cr)
    &&& !note_ended_right(n0, pl, pr, cl, cr)
}

/// The sounding note just before pitch follow: the fresh target on a
/// start, the carried note otherwise.
pub open spec fn current_before_follow(
    n0: NoteState,
    pl: Wand,
    pr: Wand,
    cl: Wand,
    cr: Wand,
) -> u8 {
    if note_started(n0, pl, pr, cl, cr) {
        target_note(n0.root, cl.stick.octant, cr.stick.octant)
    } else {
        n0.current
    }
}

/// Pitch follow fires while a note is on and the stick-selected
/// target differs from the sounding note.
pub open spec fn note_changed(n0: NoteState, pl: Wand, pr: Wand, cl: Wand, cr: Wand) -> bool {
    &&& note_on_after(n0, pl, pr, cl, cr)
    &&& current_before_follow(n0, pl, pr, cl, cr) != target_note(
        n0.root,
        cl.stick.octant,
        cr.stick.octant,
    )
}

/// A two-handed chord on logical button 0: both hands show it pressed
/// while at least one did not the tick before.
pub open spec fn chord0(pl: Wand, pr: Wand, cl: Wand, cr: Wand) -> bool {
    cl.buttons.b0 && cr.buttons.b0 && (!pl.buttons.b0 || !pr.buttons.b0)
}

/// A two-handed chord on logical button 1.
pub open spec fn chord1(pl: Wand, pr: Wand, cl: Wand, cr: Wand) -> bool {
    cl.buttons.b1 && cr.buttons.b1 && (!pl.buttons.b1 || !pr.buttons.b1)
}

/// One hand's thumb-pair chord: both thumb buttons (logical 0 and 3)
/// pressed while at least one was not the tick before.
pub open spec fn thumb_chord(p: Buttons, c: Buttons) -> bool {
    c.b0 && c.b3 && (!p.b0 || !p.b3)
}

/// The root note after this tick's chords: the button-0 chord steps
/// it up, the button-1 "rocking" chord steps it toward whichever hand
/// most recently pressed.
pub open spec fn root_after(n0: NoteState, pl: Wand, pr: Wand, cl: Wand, cr: Wand) -> u8 {
    let r1 = if chord0(pl, pr, cl, cr) {
        (((n0.root as int) + 1) % 256) as u8
    } else {
        n0.root
    };
    let rock: int = if !pl.buttons.b1 {
        -1
    } else {
        1
    };
    if chord1(pl, pr, cl, cr) {
        (((r1 as int) + rock) % 256) as u8
    } else {
        r1
    }
}

/// The pitch bend derived from the twist difference: cubed (for a
/// dead zone near zero), clamped to two units, halved.
pub open spec fn bend_of(dtw: int) -> int {
    tdiv(clamped(tdiv(dtw * dtw * dtw, 1_000_000), -2000, 2000), 2)
}

/// The whole note state after one tick.
pub open spec fn next_note(n0: NoteState, pl: Wand, pr: Wand, cl: Wand, cr: Wand) -> NoteState {
    NoteState {
        on: note_on_after(n0, pl, pr, cl, cr),
        root: root_after(n0, pl, pr, cl, cr),
        bend: bend_of(cl.twist - cr.twist) as i64,
        current: if note_changed(n0, pl, pr, cl, cr) {
            target_note(n0.root, cl.stick.octant, cr.stick.octant)
        } else {
            current_before_follow(n0, pl, pr, cl, cr)
        },
    }
}

/// The ordered delta events one tick emits.
pub open spec fn tick_deltas(n0: NoteState, pl: Wand, pr: Wand, cl: Wand, cr: Wand) -> Seq<
    DeltaEvent,
> {
    let target = target_note(n0.root, cl.stick.octant, cr.stick.octant);
    let cur1 = current_before_follow(n0, pl, pr, cl, cr);
    (if note_started(n0, pl, pr, cl, cr) {
        seq![DeltaEvent::NoteStart(target)]
    } else {
        Seq::<DeltaEvent>::empty()
    }) + (if note_ended_left(n0, pl, pr, cl, cr) {
        seq![DeltaEvent::NoteEnd(cur1)]
    } else {
        Seq::<DeltaEvent>::empty()
    }) + (if note_ended_right(n0, pl, pr, cl, cr) {
        seq![DeltaEvent::NoteEnd(cur1)]
    } else {
        Seq::<DeltaEvent>::empty()
    }) + (if note_changed(n0, pl, pr, cl, cr) {
        seq![DeltaEvent::NoteChange(cur1, target)]
    } else {
        Seq::<DeltaEvent>::empty()
    }) + (if cl.stick.clicked && cr.stick.clicked {
        seq![DeltaEvent::Panic()]
    } else {
        Seq::<DeltaEvent>::empty()
    }) + (if thumb_chord(pl.buttons, cl.buttons) {
        seq![DeltaEvent::ThumpToggle()]
    } else {
        Seq::<DeltaEvent>::empty()
    }) + (if thumb_chord(pr.buttons, cr.buttons) {
        seq![DeltaEvent::FuzzToggle()]
    } else {
        Seq::<DeltaEvent>::empty()
    })
}

/// Derive one hand's full wand for this tick: frame copy, position
/// smoothing, the three finite differences and their smoothed
/// magnitudes.
fn derive_wand(frame: &ControllerFrame, prev_wand: &Wand, dt: i64) -> (w: Wand)
    requires
        frame_wf(*frame),
        wand_wf(*prev_wand),
        1 <= dt,
    ensures
        w == derived_wand(*frame, *prev_wand, dt as int),
        wand_wf(w),
{
    let mut wand = Wand::new();
    copy_frame_to_wand(frame, &mut wand, prev_wand);

    wand.vel = derivative_r3(&wand.pos, &prev_wand.pos, dt);
    wand.acc = derivative_r3(&wand.vel, &prev_wand.vel, dt);
    wand.jerk = derivative_r3(&wand.acc, &prev_wand.acc, dt);

    let h_vel = hyp(&wand.vel);
    let h_acc = hyp(&wand.acc);
    let h_jerk = hyp(&wand.jerk);
    proof {
        lemma_scalar_ranges(wand.vel, h_vel as int, 2 * POS_LIMIT as int, 3_500_000);
        lemma_scalar_ranges(wand.acc, h_acc as int, 4 * POS_LIMIT as int, 7_000_000);
        lemma_scalar_ranges(wand.jerk, h_jerk as int, 8 * POS_LIMIT as int, 14_000_000);
    }
    wand.scalar_vel = div_trunc(h_vel + prev_wand.scalar_vel, 2);
    wand.scalar_acc = div_trunc(h_acc + prev_wand.scalar_acc, 2);
    wand.scalar_jerk = div_trunc(h_jerk + prev_wand.scalar_jerk, 2);

    proof {
        assert(0 <= frame.joystick_x * frame.joystick_x + frame.joystick_y * frame.joystick_y
            <= 2_000_000) by (nonlinear_arith)
            requires
                -1000 <= frame.joystick_x <= 1000,
                -1000 <= frame.joystick_y <= 1000,
        ;
        let n = (frame.joystick_x * frame.joystick_x + frame.joystick_y * frame.joystick_y) as int;
        lemma_sqrt_floor_exists(n);
        lemma_sqrt_rel_below(n, sqrt_floor(n), 1501);
        assert(wand == derived_wand(*frame, *prev_wand, dt as int));
    }
    wand
}

//
// The per-tick update
//

/// Derive the next combined state from the previous tick's state and
/// this tick's hardware input, appending this tick's delta events.
///
/// The note machine reads its carried state (`on`, `current`, `root`)
/// from `curr_state` as passed in, exactly as the continuously reused
/// state record does in the polling loop; wand derivatives are taken
/// against `prev_state`. Per-hand bumper and home edges are detected
/// implicitly but emit no events. `signal` and `voice` ride along
/// unchanged.
#[verifier::rlimit(100)]
pub fn update(
    curr_state: &mut Zgicabra,
    prev_state: &Zgicabra,
    hydra_state: &HydraState,
    deltas: &mut Vec<DeltaEvent>,
)
    requires
        zgicabra_wf(*prev_state),
        hydra_wf(*hydra_state),
    ensures
        ({
            let dt = dt_of(hydra_state.timedelta_ms as int);
            let cl = derived_wand(hydra_state.controllers[0], prev_state.left, dt);
            let cr = derived_wand(hydra_state.controllers[1], prev_state.right, dt);
            &&& final(curr_state).left == cl
            &&& final(curr_state).right == cr
            &&& final(curr_state).sequence_number == hydra_state.controllers[0].sequence_number
            &&& final(curr_state).docked == (hydra_state.controllers[0].is_docked != 0
                || hydra_state.controllers[1].is_docked != 0)
            &&& final(curr_state).separation == abs(cl.pos.x - cr.pos.x)
            &&& final(curr_state).level == smoothstep_spec(
                clamped(cl.trigger + cr.trigger, 0, 1000),
            )
            &&& final(curr_state).note == next_note(
                old(curr_state).note,
                prev_state.left,
                prev_state.right,
                cl,
                cr,
            )
            &&& final(curr_state).signal == old(curr_state).signal
            &&& final(curr_state).voice == old(curr_state).voice
            &&& final(deltas)@ == old(deltas)@ + tick_deltas(
                old(curr_state).note,
                prev_state.left,
                prev_state.right,
                cl,
                cr,
            )
            &&& zgicabra_wf(*final(curr_state))
        }),
{
    let ghost dt_spec = dt_of(hydra_state.timedelta_ms as int);
    let ghost clg = derived_wand(hydra_state.controllers[0], prev_state.left, dt_spec);
    let ghost crg = derived_wand(hydra_state.controllers[1], prev_state.right, dt_spec);
    let ghost n0 = curr_state.note;
    let ghost deltas0 = deltas@;

    // Sequence number and dock state come straight from the hardware.
    curr_state.sequence_number = hydra_state.controllers[0].sequence_number;
    curr_state.docked = hydra_state.controllers[0].is_docked != 0
        || hydra_state.controllers[1].is_docked != 0;

    // Time derivatives run against a delta clamped to at least 1 ms.
    let dt: i64 = if hydra_state.timedelta_ms < 1 {
        1
    } else {
        hydra_state.timedelta_ms
    };

    // Immediately-derived values, smoothing and derivatives, per hand.
    let left = derive_wand(&hydra_state.controllers[0], &prev_state.left, dt);
    let right = derive_wand(&hydra_state.controllers[1], &prev_state.right, dt);
    proof {
        assert(left == clg);
        assert(right == crg);
    }

    // Two-handed values.
    let separation = abs_i64(left.pos.x - right.pos.x);

    let twist_d = left.twist - right.twist;
    proof {
        assert(0 <= twist_d * twist_d <= 16_000_000) by (nonlinear_arith)
            requires
                -4000 <= twist_d <= 4000,
        ;
        assert(-64_000_000_000 <= twist_d * twist_d * twist_d <= 64_000_000_000)
            by (nonlinear_arith)
            requires
                -4000 <= twist_d <= 4000,
        ;
    }
    let td2 = twist_d * twist_d;
    let cube = td2 * twist_d;
    let bend = div_trunc(clamp_i64(div_trunc(cube, 1_000_000), -2000, 2000), 2);

    let trigger_total = clamp_i64(left.trigger + right.trigger, 0, 1000);
    let level = smoothstep(trigger_total);

    // Trigger edges, notes, panic and chords.
    let note = run_note_machine(
        curr_state.note,
        &prev_state.left,
        &prev_state.right,
        &left,
        &right,
        bend,
        deltas,
    );

    curr_state.left = left;
    curr_state.right = right;
    curr_state.separation = separation;
    curr_state.level = level;
    curr_state.note = note;
}

/// Run one tick of the note state machine: trigger edge detection,
/// pitch follow, the panic gesture and the button chords, appending
/// the emitted delta events in their fixed order.
#[verifier::rlimit(100)]
fn run_note_machine(
    note0: NoteState,
    pl: &Wand,
    pr: &Wand,
    cl: &Wand,
    cr: &Wand,
    bend: i64,
    deltas: &mut Vec<DeltaEvent>,
) -> (n: NoteState)
    requires
        bend == bend_of(cl.twist - cr.twist),
    ensures
        n == next_note(note0, *pl, *pr, *cl, *cr),
        final(deltas)@ == old(deltas)@ + tick_deltas(note0, *pl, *pr, *cl, *cr),
{
    let ghost deltas0 = deltas@;
    let ghost target = target_note(note0.root, cl.stick.octant, cr.stick.octant);
    let ghost started = note_started(note0, *pl, *pr, *cl, *cr);
    let ghost endl = note_ended_left(note0, *pl, *pr, *cl, *cr);
    let ghost endr = note_ended_right(note0, *pl, *pr, *cl, *cr);
    let ghost changed = note_changed(note0, *pl, *pr, *cl, *cr);
    let ghost cur1 = current_before_follow(note0, *pl, *pr, *cl, *cr);
    let ghost empty = Seq::<DeltaEvent>::empty();
    let ghost seg1 = if started {
        seq![DeltaEvent::NoteStart(target)]
    } else {
        empty
    };
    let ghost seg2 = if endl {
        seq![DeltaEvent::NoteEnd(cur1)]
    } else {
        empty
    };
    let ghost seg3 = if endr {
        seq![DeltaEvent::NoteEnd(cur1)]
    } else {
        empty
    };
    let ghost seg4 = if changed {
        seq![DeltaEvent::NoteChange(cur1, target)]
    } else {
        empty
    };
    let ghost seg5 = if cl.stick.clicked && cr.stick.clicked {
        seq![DeltaEvent::Panic()]
    } else {
        empty
    };
    let ghost seg6 = if thumb_chord(pl.buttons, cl.buttons) {
        seq![DeltaEvent::ThumpToggle()]
    } else {
        empty
    };
    let ghost seg7 = if thumb_chord(pr.buttons, cr.buttons) {
        seq![DeltaEvent::FuzzToggle()]
    } else {
        empty
    };
    proof {
        assert(tick_deltas(note0, *pl, *pr, *cl, *cr) == seg1 + seg2 + seg3 + seg4 + seg5 + seg6
            + seg7);
    }

    let left_trigger_start = cl.trigger > pl.trigger && pl.trigger == 0;
    let left_trigger_end = pl.trigger > cl.trigger && cl.trigger == 0;
    let right_trigger_start = cr.trigger > pr.trigger && pr.trigger == 0;
    let right_trigger_end = pr.trigger > cr.trigger && cr.trigger == 0;

    let offset = stick_to_note_offset(cl);
    let modifier = stick_to_note_modifier(cr);
    let new_note = wrap_u8(note0.root as i64 + offset as i64 + modifier as i64);
    proof {
        assert(new_note == target);
    }

    let mut note = note0;
    note.bend = bend;

    // Note-on: the first rising trigger edge while silent. The note
    // starts directly on the stick-selected target.
    if (left_trigger_start || right_trigger_start) && !note.on {
        note.current = new_note;
        deltas.push(DeltaEvent::NoteStart(new_note));
        note.on = true;
    }
    proof {
        assert(note.on == (note0.on || started));
        assert(note.current == cur1);
        assert(deltas@ =~= deltas0 + seg1);
    }
    // Note-off: a falling edge on one hand while the other trigger
    // rests at zero, so a note sustains while either trigger holds.
    if note.on && left_trigger_end && cr.trigger == 0 {
        deltas.push(DeltaEvent::NoteEnd(note.current));
        note.on = false;
    }
    proof {
        assert(deltas@ =~= deltas0 + seg1 + seg2);
    }
    if note.on && right_trigger_end && cl.trigger == 0 {
        deltas.push(DeltaEvent::NoteEnd(note.current));
        note.on = false;
    }
    proof {
        assert(note.on == note_on_after(note0, *pl, *pr, *cl, *cr));
        assert(deltas@ =~= deltas0 + seg1 + seg2 + seg3);
    }
    // Pitch follow while the note is on.
    if note.current != new_note && note.on {
        deltas.push(DeltaEvent::NoteChange(note.current, new_note));
        note.current = new_note;
    }
    proof {
        assert(deltas@ =~= deltas0 + seg1 + seg2 + seg3 + seg4);
    }

    // Double stick click panics, regardless of note state.
    if cl.stick.clicked && cr.stick.clicked {
        deltas.push(DeltaEvent::Panic());
    }
    proof {
        assert(deltas@ =~= deltas0 + seg1 + seg2 + seg3 + seg4 + seg5);
    }

    // Two-handed chords: tune up on button 0, rock the root on
    // button 1.
    if cl.buttons.b0 && cr.buttons.b0 && (!pl.buttons.b0 || !pr.buttons.b0) {
        note.root = wrap_u8(note.root as i64 + 1);
    }
    if cl.buttons.b1 && cr.buttons.b1 && (!pl.buttons.b1 || !pr.buttons.b1) {
        let rock: i64 = if !pl.buttons.b1 {
            -1
        } else {
            1
        };
        note.root = wrap_u8(note.root as i64 + rock);
    }
    proof {
        assert(note.root == root_after(note0, *pl, *pr, *cl, *cr));
    }

    // Thumb-pair chords, one toggle per hand.
    if cl.buttons.b0 && cl.buttons.b3 && (!pl.buttons.b0 || !pl.buttons.b3) {
        deltas.push(DeltaEvent::ThumpToggle());
    }
    proof {
        assert(deltas@ =~= deltas0 + seg1 + seg2 + seg3 + seg4 + seg5 + seg6);
    }
    if cr.buttons.b0 && cr.buttons.b3 && (!pr.buttons.b0 || !pr.buttons.b3) {
        deltas.push(DeltaEvent::FuzzToggle());
    }
    proof {
        assert(deltas@ =~= deltas0 + seg1 + seg2 + seg3 + seg4 + seg5 + seg6 + seg7);
        assert(note == next_note(note0, *pl, *pr, *cl, *cr));
    }
    note
}

//
// Laws
//

/// A frame that repeats the previous tick's smoothed position,
/// derived against an at-rest previous wand (zero derivative vectors
/// and zero smoothed magnitudes), yields a wand whose velocity,
/// acceleration and jerk — vectors and smoothed magnitudes alike —
/// are exactly zero, and whose position has not moved.
pub proof fn lemma_wand_at_rest(f: ControllerFrame, p: Wand, dt: int)
    requires
        frame_wf(f),
        wand_wf(p),
        1 <= dt,
        f.pos == p.pos,
        p.vel == (Vec3 { x: 0, y: 0, z: 0 }),
        p.acc == (Vec3 { x: 0, y: 0, z: 0 }),
        p.scalar_vel == 0,
        p.scalar_acc == 0,
        p.scalar_jerk == 0,
    ensures
        derived_wand(f, p, dt).pos == p.pos,
        derived_wand(f, p, dt).vel == (Vec3 { x: 0, y: 0, z: 0 }),
        derived_wand(f, p, dt).acc == (Vec3 { x: 0, y: 0, z: 0 }),
        derived_wand(f, p, dt).jerk == (Vec3 { x: 0, y: 0, z: 0 }),
        derived_wand(f, p, dt).scalar_vel == 0,
        derived_wand(f, p, dt).scalar_acc == 0,
        derived_wand(f, p, dt).scalar_jerk == 0,
{
    lemma_tdiv_same(p.pos.x as int);
    lemma_tdiv_same(p.pos.y as int);
    lemma_tdiv_same(p.pos.z as int);
    assert(derived_pos(f, p) == p.pos);
    vstd::arithmetic::div_mod::lemma_div_of0(dt);
    assert(tdiv(0, dt) == 0);
    assert(d_r3(p.pos, p.pos, dt) == (Vec3 { x: 0, y: 0, z: 0 }));
    let z = Vec3 { x: 0, y: 0, z: 0 };
    assert(d_r3(z, z, dt) == z);
    assert(z.x * z.x == 0) by (nonlinear_arith)
        requires
            z.x == 0,
    ;
    assert(z.y * z.y == 0) by (nonlinear_arith)
        requires
            z.y == 0,
    ;
    assert(z.z * z.z == 0) by (nonlinear_arith)
        requires
            z.z == 0,
    ;
    assert(norm2(z) == 0);
    lemma_sqrt_floor_unique(0, 0);
    assert(smoothed(0, 0) == 0);
}

/// Halving a doubled value gives it back, under truncating division.
proof fn lemma_tdiv_same(a: int)
    ensures
        tdiv(a + a, 2) == a,
{
    if a >= 0 {
        vstd::arithmetic::div_mod::lemma_div_by_multiple(a, 2);
        assert((a * 2) / 2 == a);
        assert(a + a == a * 2);
    } else {
        vstd::arithmetic::div_mod::lemma_div_by_multiple(-a, 2);
        assert(((-a) * 2) / 2 == -a);
        assert(-(a + a) == (-a) * 2);
    }
}

/// Joystick classification is total and exclusive: for every
/// deflection the octant (and the quadrant) is exactly one of the
/// nine directions, and it is `Neutral` precisely when the deflection
/// lies inside the deadzone.
pub proof fn lemma_classification_deadzone(x: int, y: int)
    ensures
        (octant_of(x, y) is Neutral) <==> (x * x + y * y < JOYSTICK_DEADZONE
            * JOYSTICK_DEADZONE),
        (quadrant_of(x, y) is Neutral) <==> (x * x + y * y < JOYSTICK_DEADZONE
            * JOYSTICK_DEADZONE),
{
}

/// `filter` of a one-element sequence keeps or drops that element.
proof fn lemma_filter_singleton(e: DeltaEvent, p: spec_fn(DeltaEvent) -> bool)
    ensures
        (if p(e) {
            seq![e].filter(p) == seq![e]
        } else {
            seq![e].filter(p) == Seq::<DeltaEvent>::empty()
        }),
{
    reveal_with_fuel(Seq::<_>::filter, 2);
    let s = seq![e];
    assert(s.drop_last() =~= Seq::<DeltaEvent>::empty());
    assert(Seq::<DeltaEvent>::empty().filter(p) =~= Seq::<DeltaEvent>::empty());
    if p(e) {
        assert(s.filter(p) =~= seq![e]);
    } else {
        assert(s.filter(p) =~= Seq::<DeltaEvent>::empty());
    }
}

/// `filter` distributes over the seven-way concatenation a tick's
/// delta sequence is built from.
proof fn lemma_filter_concat7(
    s1: Seq<DeltaEvent>,
    s2: Seq<DeltaEvent>,
    s3: Seq<DeltaEvent>,
    s4: Seq<DeltaEvent>,
    s5: Seq<DeltaEvent>,
    s6: Seq<DeltaEvent>,
    s7: Seq<DeltaEvent>,
    p: spec_fn(DeltaEvent) -> bool,
)
    ensures
        (s1 + s2 + s3 + s4 + s5 + s6 + s7).filter(p) == s1.filter(p) + s2.filter(p) + s3.filter(p)
            + s4.filter(p) + s5.filter(p) + s6.filter(p) + s7.filter(p),
{
    Seq::<DeltaEvent>::filter_distributes_over_add(s1, s2, p);
    Seq::<DeltaEvent>::filter_distributes_over_add(s1 + s2, s3, p);
    Seq::<DeltaEvent>::filter_distributes_over_add(s1 + s2 + s3, s4, p);
    Seq::<DeltaEvent>::filter_distributes_over_add(s1 + s2 + s3 + s4, s5, p);
    Seq::<DeltaEvent>::filter_distributes_over_add(s1 + s2 + s3 + s4 + s5, s6, p);
    Seq::<DeltaEvent>::filter_distributes_over_add(s1 + s2 + s3 + s4 + s5 + s6, s7, p);
}

/// Edge detection fires exactly once per transition, and note-change
/// events only occur while a note is on: one tick's delta sequence
/// holds exactly one `NoteStart` on a starting edge and none
/// otherwise; exactly one `NoteEnd` when a trigger's falling edge
/// silences the note and none otherwise; exactly one `NoteChange`
/// when pitch follow moves a sounding note and none otherwise — and
/// pitch follow requires the note to be on; exactly one `Panic` when
/// both sticks are clicked and none otherwise.
pub proof fn lemma_tick_event_counts(n0: NoteState, pl: Wand, pr: Wand, cl: Wand, cr: Wand)
    ensures
        ({
            let td = tick_deltas(n0, pl, pr, cl, cr);
            &&& td.filter(|d: DeltaEvent| d is NoteStart).len() == (if note_started(
                n0,
                pl,
                pr,
                cl,
                cr,
            ) {
                1int
            } else {
                0int
            })
            &&& td.filter(|d: DeltaEvent| d is NoteEnd).len() == (if note_ended_left(
                n0,
                pl,
                pr,
                cl,
                cr,
            ) || note_ended_right(n0, pl, pr, cl, cr) {
                1int
            } else {
                0int
            })
            &&& td.filter(|d: DeltaEvent| d is NoteChange).len() == (if note_changed(
                n0,
                pl,
                pr,
                cl,
                cr,
            ) {
                1int
            } else {
                0int
            })
            &&& td.filter(|d: DeltaEvent| d is Panic).len() == (if cl.stick.clicked
                && cr.stick.clicked {
                1int
            } else {
                0int
            })
            &&& note_changed(n0, pl, pr, cl, cr) ==> note_on_after(n0, pl, pr, cl, cr)
        }),
{
    let target = target_note(n0.root, cl.stick.octant, cr.stick.octant);
    let cur1 = current_before_follow(n0, pl, pr, cl, cr);
    let empty = Seq::<DeltaEvent>::empty();
    let s1 = if note_started(n0, pl, pr, cl, cr) {
        seq![DeltaEvent::NoteStart(target)]
    } else {
        empty
    };
    let s2 = if note_ended_left(n0, pl, pr, cl, cr) {
        seq![DeltaEvent::NoteEnd(cur1)]
    } else {
        empty
    };
    let s3 = if note_ended_right(n0, pl, pr, cl, cr) {
        seq![DeltaEvent::NoteEnd(cur1)]
    } else {
        empty
    };
    let s4 = if note_changed(n0, pl, pr, cl, cr) {
        seq![DeltaEvent::NoteChange(cur1, target)]
    } else {
        empty
    };
    let s5 = if cl.stick.clicked && cr.stick.clicked {
        seq![DeltaEvent::Panic()]
    } else {
        empty
    };
    let s6 = if thumb_chord(pl.buttons, cl.buttons) {
        seq![DeltaEvent::ThumpToggle()]
    } else {
        empty
    };
    let s7 = if thumb_chord(pr.buttons, cr.buttons) {
        seq![DeltaEvent::FuzzToggle()]
    } else {
        empty
    };
    assert(tick_deltas(n0, pl, pr, cl, cr) == s1 + s2 + s3 + s4 + s5 + s6 + s7);
    let starts = |d: DeltaEvent| d is NoteStart;
    let ends = |d: DeltaEvent| d is NoteEnd;
    let changes = |d: DeltaEvent| d is NoteChange;
    let panics = |d: DeltaEvent| d is Panic;
    lemma_filter_concat7(s1, s2, s3, s4, s5, s6, s7, starts);
    lemma_filter_concat7(s1, s2, s3, s4, s5, s6, s7, ends);
    lemma_filter_concat7(s1, s2, s3, s4, s5, s6, s7, changes);
    lemma_filter_concat7(s1, s2, s3, s4, s5, s6, s7, panics);
    assert(empty.filter(starts) =~= empty);
    assert(empty.filter(ends) =~= empty);
    assert(empty.filter(changes) =~= empty);
    assert(empty.filter(panics) =~= empty);
    lemma_filter_singleton(DeltaEvent::NoteStart(target), starts);
    lemma_filter_singleton(DeltaEvent::NoteStart(target), ends);
    lemma_filter_singleton(DeltaEvent::NoteStart(target), changes);
    lemma_filter_singleton(DeltaEvent::NoteStart(target), panics);
    lemma_filter_singleton(DeltaEvent::NoteEnd(cur1), starts);
    lemma_filter_singleton(DeltaEvent::NoteEnd(cur1), ends);
    lemma_filter_singleton(DeltaEvent::NoteEnd(cur1), changes);
    lemma_filter_singleton(DeltaEvent::NoteEnd(cur1), panics);
    lemma_filter_singleton(DeltaEvent::NoteChange(cur1, target), starts);
    lemma_filter_singleton(DeltaEvent::NoteChange(cur1, target), ends);
    lemma_filter_singleton(DeltaEvent::NoteChange(cur1, target), changes);
    lemma_filter_singleton(DeltaEvent::NoteChange(cur1, target), panics);
    lemma_filter_singleton(DeltaEvent::Panic(), starts);
    lemma_filter_singleton(DeltaEvent::Panic(), ends);
    lemma_filter_singleton(DeltaEvent::Panic(), changes);
    lemma_filter_singleton(DeltaEvent::Panic(), panics);
    lemma_filter_singleton(DeltaEvent::ThumpToggle(), starts);
    lemma_filter_singleton(DeltaEvent::ThumpToggle(), ends);
    lemma_filter_singleton(DeltaEvent::ThumpToggle(), changes);
    lemma_filter_singleton(DeltaEvent::ThumpToggle(), panics);
    lemma_filter_singleton(DeltaEvent::FuzzToggle(), starts);
    lemma_filter_singleton(DeltaEvent::FuzzToggle(), ends);
    lemma_filter_singleton(DeltaEvent::FuzzToggle(), changes);
    lemma_filter_singleton(DeltaEvent::FuzzToggle(), panics);
    // A note cannot end on both hands in the same tick.
    assert(!(note_ended_left(n0, pl, pr, cl, cr) && note_ended_right(n0, pl, pr, cl, cr)));
}

/// While no trigger is held and no note is on, a tick emits no
/// note-start and no note-change, whatever the sticks do, and the
/// note state keeps silent on the same note.
pub proof fn lemma_silent_without_trigger(n0: NoteState, pl: Wand, pr: Wand, cl: Wand, cr: Wand)
    requires
        !n0.on,
        pl.trigger == 0,
        pr.trigger == 0,
        cl.trigger == 0,
        cr.trigger == 0,
    ensures
        tick_deltas(n0, pl, pr, cl, cr).filter(|d: DeltaEvent| d is NoteStart).len() == 0,
        tick_deltas(n0, pl, pr, cl, cr).filter(|d: DeltaEvent| d is NoteChange).len() == 0,
        !next_note(n0, pl, pr, cl, cr).on,
        next_note(n0, pl, pr, cl, cr).current == n0.current,
{
    lemma_tick_event_counts(n0, pl, pr, cl, cr);
}

/// Range bookkeeping for one derivative vector and its magnitude:
/// componentwise bounds give a norm bound, which caps the square-root
/// floor.
proof fn lemma_scalar_ranges(v: Vec3, h: int, c: int, b: int)
    requires
        0 <= c,
        0 <= b,
        3 * (c * c) < b * b,
        -c <= v.x <= c,
        -c <= v.y <= c,
        -c <= v.z <= c,
        0 <= h,
        h * h <= norm2(v),
        norm2(v) < (h + 1) * (h + 1),
    ensures
        0 <= h < b,
        h == sqrt_floor(norm2(v)),
{
    assert(v.x * v.x <= c * c) by (nonlinear_arith)
        requires
            -c <= v.x <= c,
            0 <= c,
    ;
    assert(v.y * v.y <= c * c) by (nonlinear_arith)
        requires
            -c <= v.y <= c,
            0 <= c,
    ;
    assert(v.z * v.z <= c * c) by (nonlinear_arith)
        requires
            -c <= v.z <= c,
            0 <= c,
    ;
    assert(norm2(v) <= 3 * (c * c));
    lemma_sqrt_rel_below(norm2(v), h, b);
    lemma_sqrt_floor_unique(norm2(v), h);
}

} // verus!
