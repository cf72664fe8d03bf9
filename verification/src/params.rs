//! What a caller states about a view: its field of view, its clipping distances,
//! and the orientation of clip space.

use crate::binary32::{le, le_spec, ZERO};
use vstd::prelude::*;

verus! {

/// The default near clipping distance: one tenth, rounded to the nearest encoding.
pub const DEFAULT_NEAR: u32 = 0x3dcc_cccd;

/// The default far clipping distance: one thousand.
pub const DEFAULT_FAR: u32 = 0x447a_0000;

/// The six numbers a projection is computed from.
#[derive(Clone, Copy, PartialEq, Eq, Debug, Structural)]
pub enum Input {
    AngleLeft,
    AngleRight,
    AngleUp,
    AngleDown,
    Near,
    Far,
}

/// Which way the vertical axis of clip space points.
#[derive(Clone, Copy, PartialEq, Eq, Debug, Structural)]
pub enum ClipSpaceConvention {
    /// Positive Y points down the screen.
    PositiveYDown,
    /// Positive Y points up the screen.
    PositiveYUp,
}

/// Where the far clipping plane lies.
#[derive(Clone, Copy, PartialEq, Eq, Debug, Structural)]
pub enum FarPlane {
    /// At infinity, with depth stored reversed.
    Infinite,
    /// At the stated far distance.
    Finite,
}

/// Four signed half-angles in radians, measured from the optical axis, each held as
/// its binary32 encoding. A usable frustum has `angle_right` above `angle_left` and
/// `angle_up` above `angle_down`; nothing here enforces that.
#[derive(Clone, Copy, PartialEq, Eq, Debug, Structural)]
pub struct FieldOfView {
    pub angle_left: u32,
    pub angle_right: u32,
    pub angle_up: u32,
    pub angle_down: u32,
}

/// The parameters of one eye's projection, each number held as its binary32 encoding.
///
/// A `far` that is not above `near` asks for a far plane at infinity.
#[derive(Clone, Copy, PartialEq, Eq, Debug, Structural)]
pub struct XRProjection {
    pub near: u32,
    pub far: u32,
    pub fov: FieldOfView,
}

/// The far plane that a pair of clipping distances selects: at infinity exactly when
/// `far <= near` holds as an IEEE 754 comparison. A NaN on either side makes the
/// comparison false and so selects the finite plane.
pub open spec fn far_plane_of(near: u32, far: u32) -> FarPlane {
    if le_spec(far, near) {
        FarPlane::Infinite
    } else {
        FarPlane::Finite
    }
}

impl Default for FieldOfView {
    /// All four angles zero.
    fn default() -> (fov: Self)
        ensures
            fov == (FieldOfView {
                angle_left: ZERO,
                angle_right: ZERO,
                angle_up: ZERO,
                angle_down: ZERO,
            }),
    {
        FieldOfView { angle_left: ZERO, angle_right: ZERO, angle_up: ZERO, angle_down: ZERO }
    }
}

impl XRProjection {
    pub fn new(near: u32, far: u32, fov: FieldOfView) -> (p: Self)
        ensures
            p == (XRProjection { near, far, fov }),
    {
        XRProjection { near, far, fov }
    }

    /// The encoding that an input stands for.
    pub open spec fn word(self, input: Input) -> u32 {
        match input {
            Input::AngleLeft => self.fov.angle_left,
            Input::AngleRight => self.fov.angle_right,
            Input::AngleUp => self.fov.angle_up,
            Input::AngleDown => self.fov.angle_down,
            Input::Near => self.near,
            Input::Far => self.far,
        }
    }

    /// Reads one input.
    pub fn input(&self, input: Input) -> (w: u32)
        ensures
            w == self.word(input),
    {
        match input {
            Input::AngleLeft => self.fov.angle_left,
            Input::AngleRight => self.fov.angle_right,
            Input::AngleUp => self.fov.angle_up,
            Input::AngleDown => self.fov.angle_down,
            Input::Near => self.near,
            Input::Far => self.far,
        }
    }

    /// The far clipping distance as stated, whichever far plane it selects.
    pub fn far(&self) -> (w: u32)
        ensures
            w == self.far,
    {
        self.far
    }

    /// Decides where the far plane lies.
    pub fn far_plane(&self) -> (plane: FarPlane)
        ensures
            plane == far_plane_of(self.near, self.far),
    {
        if le(self.far, self.near) {
            FarPlane::Infinite
        } else {
            FarPlane::Finite
        }
    }
}

impl Default for XRProjection {
    /// Near at one tenth, far at one thousand, and an empty field of view.
    fn default() -> (p: Self)
        ensures
            p == (XRProjection {
                near: DEFAULT_NEAR,
                far: DEFAULT_FAR,
                fov: FieldOfView {
                    angle_left: ZERO,
                    angle_right: ZERO,
                    angle_up: ZERO,
                    angle_down: ZERO,
                },
            }),
    {
        XRProjection { near: DEFAULT_NEAR, far: DEFAULT_FAR, fov: FieldOfView::default() }
    }
}

} // verus!
