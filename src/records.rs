//! The structured records that the animation descriptors hold once they are
//! parsed: expressions, parameter groups, hit areas, motions, display
//! information, poses, user data and physics ids.

use vstd::prelude::*;

verus! {

/// How an expression value is blended into a parameter value.
#[derive(Copy, Clone, Debug, PartialEq, Eq, Structural)]
pub enum ExpressionBlendType {
    /// Adds the weighted value.
    Add,
    /// Scales by the weighted value.
    Multiply,
    /// Replaces by the weighted value.
    Overwrite,
}

/// One parameter of an expression descriptor.
pub struct ExpressionParameter {
    pub id: String,
    pub blend_type: ExpressionBlendType,
    pub value: i64,
}

/// An expression descriptor.
pub struct Expression3 {
    pub ty: String,
    pub fade_in_time: i64,
    pub fade_out_time: i64,
    pub parameters: Vec<ExpressionParameter>,
}

/// What a group of a model descriptor collects.
#[derive(Copy, Clone, Debug, PartialEq, Eq, Structural)]
pub enum GroupTarget {
    Parameter,
    Part,
}

/// A named group of parameter or part ids.
pub struct Group {
    pub target: GroupTarget,
    pub name: String,
    pub ids: Vec<String>,
}

/// A named hit area of a model.
pub struct HitArea {
    pub name: String,
    pub id: String,
}

/// A point of a motion curve: a time in microseconds and a value.
#[derive(Copy, Clone, Debug, PartialEq, Eq, Structural)]
pub struct SegmentPoint {
    pub time: i64,
    pub value: i64,
}

/// A segment of a motion curve.
#[derive(Copy, Clone, Debug)]
pub enum Segment {
    /// A straight line between two points.
    Linear(SegmentPoint, SegmentPoint),
    /// A cubic Bezier curve through its first and last control points.
    Bezier([SegmentPoint; 4]),
    /// The value of the point, held until the given time.
    Stepped(SegmentPoint, i64),
    /// The value of the point, held from the given time.
    InverseStepped(i64, SegmentPoint),
}

/// A motion curve: what it drives and its time-ordered segments.
pub struct Curve {
    /// `Parameter`, `PartOpacity` or `Model`.
    pub target: String,
    pub id: String,
    pub segments: Vec<Segment>,
    pub fade_in_time: i64,
    pub fade_out_time: i64,
}

/// The header of a motion descriptor.
pub struct Meta {
    /// The length of the motion in microseconds.
    pub duration: i64,
    /// Frames per second, in millionths.
    pub fps: i64,
    pub looped: bool,
    pub restricted_beziers: bool,
    pub curve_count: usize,
    pub total_segment_count: usize,
    pub total_point_count: usize,
    pub user_data_count: usize,
    pub total_user_data_size: usize,
}

/// A user data event of a motion.
pub struct MotionUserData {
    pub time: i64,
    pub value: String,
}

/// A motion descriptor.
pub struct Motion3 {
    pub version: u32,
    pub meta: Meta,
    pub curves: Vec<Curve>,
    pub user_data: Vec<MotionUserData>,
}

/// Display information of a parameter.
pub struct Cdi3Parameter {
    pub id: String,
    pub group_id: String,
    pub name: String,
}

/// Display information of a parameter group.
pub struct Cdi3ParameterGroup {
    pub id: String,
    pub group_id: String,
    pub name: String,
}

/// Display information of a part.
pub struct Cdi3Part {
    pub id: String,
    pub name: String,
}

/// A display information descriptor.
pub struct Cdi3 {
    pub version: usize,
    pub parameters: Vec<Cdi3Parameter>,
    pub parameter_groups: Vec<Cdi3ParameterGroup>,
    pub parts: Vec<Cdi3Part>,
}

/// A part of a pose group and the parts linked to it.
pub struct PoseItem {
    pub id: String,
    pub link: Vec<String>,
}

/// What a user data entry is attached to.
#[derive(Copy, Clone, Debug, PartialEq, Eq, Structural)]
pub enum UserDataTarget {
    ArtMesh,
}

/// A user data entry.
pub struct UserData {
    pub target: UserDataTarget,
    pub id: String,
    pub value: String,
}

/// What a physics input or output is bound to.
pub struct PhysicsTarget {
    pub target: String,
    pub id: String,
}

/// The display name of a physics setting.
pub struct PhysicsIdName {
    pub id: String,
    pub name: String,
}

} // verus!
