//! Raw controller frames, as the hardware transport hands them over.
//!
//! The transport itself (vendor SDK, blocking reads) lives outside this
//! library; here a frame is plain data in fixed-point milli-units with
//! the ranges the hardware guarantees: unit-bounded quaternion and
//! joystick components, a unit-interval trigger, and positions within
//! `POS_LIMIT` milli-units of the base station.

use vstd::prelude::*;

verus! {

use crate::functions::Vec3;
use crate::functions::Vec4;

pub const LEFT_HAND: u8 = 1;

pub const RIGHT_HAND: u8 = 2;

pub const BUTTON_JOYCLICK: u32 = 0b100000000;

pub const BUTTON_BUMPER: u32 = 0b010000000;

pub const BUTTON_HOME: u32 = 0b000000001;

pub const BUTTON_1: u32 = 0b000100000;

pub const BUTTON_2: u32 = 0b001000000;

pub const BUTTON_3: u32 = 0b000001000;

pub const BUTTON_4: u32 = 0b000010000;

/// Largest position magnitude a frame may report, in milli-units.
pub const POS_LIMIT: i64 = 1_000_000;

/// One frame of data from one controller.
#[derive(Clone, Copy, Debug, PartialEq, Eq, Structural)]
pub struct ControllerFrame {
    pub pos: Vec3,
    pub rot_quat: Vec4,
    pub joystick_x: i64,
    pub joystick_y: i64,
    pub trigger: i64,
    pub buttons: u32,
    pub sequence_number: u8,
    pub is_docked: u8,
    pub which_hand: u8,
}

/// The ranges every hardware frame obeys.
pub open spec fn frame_wf(f: ControllerFrame) -> bool {
    &&& -POS_LIMIT <= f.pos.x <= POS_LIMIT
    &&& -POS_LIMIT <= f.pos.y <= POS_LIMIT
    &&& -POS_LIMIT <= f.pos.z <= POS_LIMIT
    &&& -1000 <= f.rot_quat.x <= 1000
    &&& -1000 <= f.rot_quat.y <= 1000
    &&& -1000 <= f.rot_quat.z <= 1000
    &&& -1000 <= f.rot_quat.w <= 1000
    &&& -1000 <= f.joystick_x <= 1000
    &&& -1000 <= f.joystick_y <= 1000
    &&& 0 <= f.trigger <= 1000
}

impl ControllerFrame {
    /// The all-zero frame: the benign default for a missing or
    /// powered-off controller.
    pub fn new() -> (f: ControllerFrame)
        ensures
            f == ControllerFrame::zero_spec(),
            frame_wf(f),
    {
        ControllerFrame {
            pos: Vec3::zero(),
            rot_quat: Vec4::zero(),
            joystick_x: 0,
            joystick_y: 0,
            trigger: 0,
            buttons: 0,
            sequence_number: 0,
            is_docked: 0,
            which_hand: 0,
        }
    }

    /// The ghost value of the all-zero frame.
    pub open spec fn zero_spec() -> ControllerFrame {
        ControllerFrame {
            pos: Vec3 { x: 0, y: 0, z: 0 },
            rot_quat: Vec4 { x: 0, y: 0, z: 0, w: 0 },
            joystick_x: 0,
            joystick_y: 0,
            trigger: 0,
            buttons: 0,
            sequence_number: 0,
            is_docked: 0,
            which_hand: 0,
        }
    }
}

/// One tick's worth of hardware input: the latest frame from each
/// controller, and the wall-clock milliseconds since the previous tick.
#[derive(Clone, Copy, Debug)]
pub struct HydraState {
    pub controllers: [ControllerFrame; 2],
    pub timedelta_ms: i64,
}

/// The ranges every tick's input obeys.
pub open spec fn hydra_wf(s: HydraState) -> bool {
    &&& frame_wf(s.controllers[0])
    &&& frame_wf(s.controllers[1])
    &&& 0 <= s.timedelta_ms
}

impl HydraState {
    /// A fresh input record with zero frames and no elapsed time.
    pub fn new() -> (s: HydraState)
        ensures
            s.controllers[0] == ControllerFrame::zero_spec(),
            s.controllers[1] == ControllerFrame::zero_spec(),
            s.timedelta_ms == 0,
            hydra_wf(s),
    {
        HydraState { controllers: [ControllerFrame::new(), ControllerFrame::new()], timedelta_ms: 0 }
    }
}

} // verus!
