//! Points and vectors in space.
//!
//! Positions and normals are `glam::Vec3` values. Verus does not look inside one: each
//! operation on them is a call into `glam`, and what the call returns is named by a
//! specification function of its arguments. A scalar result is handed on as the bit
//! pattern of the single-precision number, an unsigned integer. Among non-negative
//! numbers that are not NaN, the order of the bit patterns is the order of the numbers,
//! so squared lengths are compared as integers.

use vstd::prelude::*;

verus! {

/// `glam::Vec3`: three single-precision coordinates.
#[verifier::external_type_specification]
#[verifier::external_body]
pub struct ExVec3(glam::Vec3);

/// `glam::Vec2`: two single-precision coordinates.
#[verifier::external_type_specification]
#[verifier::external_body]
pub struct ExVec2(glam::Vec2);

/// `glam::Vec4`: four single-precision coordinates.
#[verifier::external_type_specification]
#[verifier::external_body]
pub struct ExVec4(glam::Vec4);

/// `glam::Mat4`: a four-by-four matrix of single-precision numbers.
#[verifier::external_type_specification]
#[verifier::external_body]
pub struct ExMat4(glam::Mat4);

/// The bit pattern of the single-precision infinity. The patterns of the numbers that
/// are not negative are those up to this one, in the order of the numbers.
pub const INFINITE: u32 = 2139095040;

/// The one bit pattern that stands for every result that is not a number.
pub const NOT_A_NUMBER: u32 = 2143289344;

/// A bit pattern as it is handed on: itself where it is the pattern of a number, and
/// `NOT_A_NUMBER` where it is one of the patterns of what is not a number, whose sign
/// and payload say nothing.
pub open spec fn settled(bits: u32) -> u32 {
    if bits & 2147483647 > 2139095040 {
        NOT_A_NUMBER
    } else {
        bits
    }
}

/// Hands a bit pattern on: see [`settled`].
pub fn settle(bits: u32) -> (handed: u32)
    ensures
        handed == settled(bits),
{
    if bits & 2147483647 > 2139095040 {
        NOT_A_NUMBER
    } else {
        bits
    }
}

/// What `glam::Vec2::distance_squared` returns for `a` and `b`: its bit pattern where
/// it is a number, `NOT_A_NUMBER` where it is none.
pub uninterp spec fn vec2_distance_squared(a: glam::Vec2, b: glam::Vec2) -> u32;

/// What `-` of `glam::Vec2` returns for `a` and `b`.
pub uninterp spec fn vec2_difference(a: glam::Vec2, b: glam::Vec2) -> glam::Vec2;

/// What `*` of `glam::Vec2` returns for `a` and `b`.
pub uninterp spec fn vec2_product(a: glam::Vec2, b: glam::Vec2) -> glam::Vec2;

/// What `glam::Vec2::floor` returns for `a`.
pub uninterp spec fn vec2_floor(a: glam::Vec2) -> glam::Vec2;

/// The two coordinates of what `glam::Vec2::as_ivec2` returns for `a`.
pub uninterp spec fn vec2_whole(a: glam::Vec2) -> (i32, i32);

/// The cell of `point` in a grid that starts at `origin` and has `cells_per_unit`
/// cells to the unit along each axis: the coordinates of `point - origin`, multiplied
/// by `cells_per_unit`, rounded down and cast to whole numbers.
pub open spec fn vec2_grid_cell(point: glam::Vec2, origin: glam::Vec2, cells_per_unit: glam::Vec2) -> (i32, i32) {
    vec2_whole(vec2_floor(vec2_product(vec2_difference(point, origin), cells_per_unit)))
}

/// What `glam::Vec2::extend` returns for `a` and a third coordinate of nought.
pub uninterp spec fn vec2_extended(a: glam::Vec2) -> glam::Vec3;

/// What `glam::Vec3::extend` returns for `a` and a fourth coordinate of one.
pub uninterp spec fn vec3_extended(a: glam::Vec3) -> glam::Vec4;

/// What `*` of `glam::Mat4` and `glam::Vec4` returns for `transform` and `a`.
pub uninterp spec fn mat4_applied(transform: glam::Mat4, a: glam::Vec4) -> glam::Vec4;

/// What `glam::Vec4Swizzles::xyz` returns for `a`.
pub uninterp spec fn vec4_shortened(a: glam::Vec4) -> glam::Vec3;

/// The point of the plane `point` taken into space by `transform`: extended by a third
/// coordinate of nought and a fourth of one, multiplied by the matrix, and shortened
/// to its first three coordinates.
pub open spec fn vec2_lifted(transform: glam::Mat4, point: glam::Vec2) -> glam::Vec3 {
    vec4_shortened(mat4_applied(transform, vec3_extended(vec2_extended(point))))
}

/// The bit pattern of the first coordinate of `a` where it is a number,
/// `NOT_A_NUMBER` where it is none.
pub uninterp spec fn vec3_x_bits(a: glam::Vec3) -> u32;

/// The bit pattern of the second coordinate of `a` where it is a number,
/// `NOT_A_NUMBER` where it is none.
pub uninterp spec fn vec3_y_bits(a: glam::Vec3) -> u32;

/// The bit pattern of the third coordinate of `a` where it is a number,
/// `NOT_A_NUMBER` where it is none.
pub uninterp spec fn vec3_z_bits(a: glam::Vec3) -> u32;

/// Whether both vectors are absent, or both are there and alike.
pub open spec fn alike_or_absent(a: Option<glam::Vec3>, b: Option<glam::Vec3>) -> bool {
    match (a, b) {
        (Some(x), Some(y)) => alike(x, y),
        (None, None) => true,
        _ => false,
    }
}

/// Whether two vectors agree coordinate by coordinate in their bit patterns, every
/// coordinate that is not a number taken for the same.
pub open spec fn alike(a: glam::Vec3, b: glam::Vec3) -> bool {
    vec3_x_bits(a) == vec3_x_bits(b) && vec3_y_bits(a) == vec3_y_bits(b) && vec3_z_bits(a) == vec3_z_bits(b)
}

/// What `==` of `glam::Vec3` returns for `a` and `b`.
pub uninterp spec fn vec3_equal(a: glam::Vec3, b: glam::Vec3) -> bool;

/// What `glam::Vec3::distance_squared` returns for `a` and `b`: its bit pattern where
/// it is a number, `NOT_A_NUMBER` where it is none.
pub uninterp spec fn vec3_distance_squared(a: glam::Vec3, b: glam::Vec3) -> u32;

/// What `glam::Vec3::distance` returns for `a` and `b`: its bit pattern where it is a
/// number, `NOT_A_NUMBER` where it is none.
pub uninterp spec fn vec3_distance(a: glam::Vec3, b: glam::Vec3) -> u32;

/// What `glam::Vec3::length_squared` returns for `a`: its bit pattern where it is a
/// number, `NOT_A_NUMBER` where it is none.
pub uninterp spec fn vec3_length_squared(a: glam::Vec3) -> u32;

/// What `glam::Vec3::midpoint` returns for `a` and `b`.
pub uninterp spec fn vec3_midpoint(a: glam::Vec3, b: glam::Vec3) -> glam::Vec3;

/// What `+` of `glam::Vec3` returns for `a` and `b`.
pub uninterp spec fn vec3_sum(a: glam::Vec3, b: glam::Vec3) -> glam::Vec3;

/// What `+` of `glam::Vec3` returns for `glam::Vec3::ZERO` and `a`.
pub uninterp spec fn vec3_sum_from_nought(a: glam::Vec3) -> glam::Vec3;

/// What `-` of `glam::Vec3` returns for `a` and `b`.
pub uninterp spec fn vec3_difference(a: glam::Vec3, b: glam::Vec3) -> glam::Vec3;

/// What `glam::Vec3::cross` returns for `a` and `b`.
pub uninterp spec fn vec3_cross(a: glam::Vec3, b: glam::Vec3) -> glam::Vec3;

/// What `glam::Vec3::normalize` returns for `a`.
pub uninterp spec fn vec3_normalized(a: glam::Vec3) -> glam::Vec3;

/// `glam::Vec2::distance_squared`, handed out as the bit pattern of the result. Where
/// the result is a number, that pattern is the named one; where it is none, the
/// pattern handed out is one of those of what is not a number, which one is not
/// stated.
#[verifier::external_body]
pub(crate) fn raw_distance_squared_2d(a: &glam::Vec2, b: &glam::Vec2) -> (bits: u32)
    ensures
        settled(bits) == vec2_distance_squared(*a, *b),
{
    a.distance_squared(*b).to_bits()
}

/// The squared distance of two points of the plane, as a settled bit pattern.
pub(crate) fn distance_squared_2d(a: &glam::Vec2, b: &glam::Vec2) -> (bits: u32)
    ensures
        bits == vec2_distance_squared(*a, *b),
{
    settle(raw_distance_squared_2d(a, b))
}

/// `-` of `glam::Vec2`. The result is named, not described.
#[verifier::external_body]
pub(crate) fn difference_2d(a: &glam::Vec2, b: &glam::Vec2) -> (delta: glam::Vec2)
    ensures
        delta == vec2_difference(*a, *b),
{
    *a - *b
}

/// `*` of `glam::Vec2`, coordinate by coordinate. The result is named, not described.
#[verifier::external_body]
pub(crate) fn product_2d(a: &glam::Vec2, b: &glam::Vec2) -> (product: glam::Vec2)
    ensures
        product == vec2_product(*a, *b),
{
    *a * *b
}

/// `glam::Vec2::floor`. The result is named, not described.
#[verifier::external_body]
pub(crate) fn floor_2d(a: &glam::Vec2) -> (floor: glam::Vec2)
    ensures
        floor == vec2_floor(*a),
{
    a.floor()
}

/// `glam::Vec2::as_ivec2`, handed out as its two coordinates. The result is named, not
/// described.
#[verifier::external_body]
pub(crate) fn whole_2d(a: &glam::Vec2) -> (whole: (i32, i32))
    ensures
        whole == vec2_whole(*a),
{
    let whole = a.as_ivec2();
    (whole.x, whole.y)
}

/// `glam::Vec2::extend` with a third coordinate of nought. The result is named, not
/// described.
#[verifier::external_body]
pub(crate) fn extended_2d(a: &glam::Vec2) -> (extended: glam::Vec3)
    ensures
        extended == vec2_extended(*a),
{
    a.extend(0u8.into())
}

/// `glam::Vec3::extend` with a fourth coordinate of one. The result is named, not
/// described.
#[verifier::external_body]
pub(crate) fn extended_3d(a: &glam::Vec3) -> (extended: glam::Vec4)
    ensures
        extended == vec3_extended(*a),
{
    a.extend(1u8.into())
}

/// `*` of `glam::Mat4` and `glam::Vec4`. The result is named, not described.
#[verifier::external_body]
pub(crate) fn applied(transform: &glam::Mat4, a: &glam::Vec4) -> (image: glam::Vec4)
    ensures
        image == mat4_applied(*transform, *a),
{
    *transform * *a
}

/// `glam::Vec4Swizzles::xyz`. The result is named, not described.
#[verifier::external_body]
pub(crate) fn shortened(a: &glam::Vec4) -> (short: glam::Vec3)
    ensures
        short == vec4_shortened(*a),
{
    glam::Vec4Swizzles::xyz(*a)
}

/// The cell of a point in a grid: see [`vec2_grid_cell`].
pub(crate) fn grid_cell(point: &glam::Vec2, origin: &glam::Vec2, cells_per_unit: &glam::Vec2) -> (cell: (i32, i32))
    ensures
        cell == vec2_grid_cell(*point, *origin, *cells_per_unit),
{
    let delta = difference_2d(point, origin);
    let scaled = product_2d(&delta, cells_per_unit);
    let floor = floor_2d(&scaled);
    whole_2d(&floor)
}

/// A point of the plane taken into space by a transform: see [`vec2_lifted`].
pub(crate) fn lifted(transform: &glam::Mat4, point: &glam::Vec2) -> (lifted: glam::Vec3)
    ensures
        lifted == vec2_lifted(*transform, *point),
{
    let in_space = extended_2d(point);
    let whole = extended_3d(&in_space);
    let image = applied(transform, &whole);
    shortened(&image)
}

/// `Clone` of `glam::Vec2`, a `Copy` type: the copy is the value.
#[verifier::external_body]
pub(crate) fn copy_point_2d(a: &glam::Vec2) -> (copy: glam::Vec2)
    ensures
        copy == *a,
{
    *a
}

/// The derived `PartialEq` of `glam::Vec3`: coordinate by coordinate, as the numbers
/// compare. The result is named, not described.
#[verifier::external_body]
pub(crate) fn points_equal(a: &glam::Vec3, b: &glam::Vec3) -> (equal: bool)
    ensures
        equal == vec3_equal(*a, *b),
{
    *a == *b
}

/// `glam::Vec3::distance_squared`, handed out as the bit pattern of the result. Where the result is a number,
/// that pattern is the named one; where it is none, the pattern handed out is one of
/// those of what is not a number, which one is not stated.
#[verifier::external_body]
pub(crate) fn raw_distance_squared(a: &glam::Vec3, b: &glam::Vec3) -> (bits: u32)
    ensures
        settled(bits) == vec3_distance_squared(*a, *b),
{
    a.distance_squared(*b).to_bits()
}

/// The same as a settled bit pattern.
pub(crate) fn distance_squared(a: &glam::Vec3, b: &glam::Vec3) -> (bits: u32)
    ensures
        bits == vec3_distance_squared(*a, *b),
{
    settle(raw_distance_squared(a, b))
}

/// `glam::Vec3::distance`, handed out as the bit pattern of the result. Where the result is a number,
/// that pattern is the named one; where it is none, the pattern handed out is one of
/// those of what is not a number, which one is not stated.
#[verifier::external_body]
pub(crate) fn raw_distance(a: &glam::Vec3, b: &glam::Vec3) -> (bits: u32)
    ensures
        settled(bits) == vec3_distance(*a, *b),
{
    a.distance(*b).to_bits()
}

/// The same as a settled bit pattern.
pub(crate) fn distance(a: &glam::Vec3, b: &glam::Vec3) -> (bits: u32)
    ensures
        bits == vec3_distance(*a, *b),
{
    settle(raw_distance(a, b))
}

/// `glam::Vec3::length_squared`, handed out as the bit pattern of the result. Where the result is a number,
/// that pattern is the named one; where it is none, the pattern handed out is one of
/// those of what is not a number, which one is not stated.
#[verifier::external_body]
pub(crate) fn raw_length_squared(a: &glam::Vec3) -> (bits: u32)
    ensures
        settled(bits) == vec3_length_squared(*a),
{
    a.length_squared().to_bits()
}

/// The same as a settled bit pattern.
pub(crate) fn length_squared(a: &glam::Vec3) -> (bits: u32)
    ensures
        bits == vec3_length_squared(*a),
{
    settle(raw_length_squared(a))
}

/// `glam::Vec3::midpoint`. The result is named, not described.
#[verifier::external_body]
pub(crate) fn midpoint(a: &glam::Vec3, b: &glam::Vec3) -> (middle: glam::Vec3)
    ensures
        middle == vec3_midpoint(*a, *b),
{
    a.midpoint(*b)
}

/// `+` of `glam::Vec3`. The result is named, not described.
#[verifier::external_body]
pub(crate) fn sum(a: &glam::Vec3, b: &glam::Vec3) -> (total: glam::Vec3)
    ensures
        total == vec3_sum(*a, *b),
{
    *a + *b
}

/// `+` of `glam::Vec3` with `glam::Vec3::ZERO` on the left: the first step of a sum. The
/// result is named, not described.
#[verifier::external_body]
pub(crate) fn sum_from_nought(a: &glam::Vec3) -> (total: glam::Vec3)
    ensures
        total == vec3_sum_from_nought(*a),
{
    glam::Vec3::ZERO + *a
}

/// `-` of `glam::Vec3`. The result is named, not described.
#[verifier::external_body]
pub(crate) fn difference(a: &glam::Vec3, b: &glam::Vec3) -> (delta: glam::Vec3)
    ensures
        delta == vec3_difference(*a, *b),
{
    *a - *b
}

/// `glam::Vec3::cross`. The result is named, not described.
#[verifier::external_body]
pub(crate) fn cross(a: &glam::Vec3, b: &glam::Vec3) -> (product: glam::Vec3)
    ensures
        product == vec3_cross(*a, *b),
{
    a.cross(*b)
}

/// `glam::Vec3::normalize`. The result is named, not described; for a vector of length
/// zero its coordinates are not numbers.
#[verifier::external_body]
pub(crate) fn normalized(a: &glam::Vec3) -> (unit: glam::Vec3)
    ensures
        unit == vec3_normalized(*a),
{
    a.normalize()
}

/// The first coordinate of a vector, handed out as its bit pattern: the named one
/// where the coordinate is a number, one of those of what is not a number where it is
/// none.
#[verifier::external_body]
pub(crate) fn raw_x_bits(a: &glam::Vec3) -> (bits: u32)
    ensures
        settled(bits) == vec3_x_bits(*a),
{
    a.x.to_bits()
}

/// The second coordinate of a vector, handed out as its bit pattern: see `raw_x_bits`.
#[verifier::external_body]
pub(crate) fn raw_y_bits(a: &glam::Vec3) -> (bits: u32)
    ensures
        settled(bits) == vec3_y_bits(*a),
{
    a.y.to_bits()
}

/// The third coordinate of a vector, handed out as its bit pattern: see `raw_x_bits`.
#[verifier::external_body]
pub(crate) fn raw_z_bits(a: &glam::Vec3) -> (bits: u32)
    ensures
        settled(bits) == vec3_z_bits(*a),
{
    a.z.to_bits()
}

/// Whether two vectors agree coordinate by coordinate in their settled bit patterns.
/// This is not the `==` of the numbers, which takes the two zeros for equal and a value
/// that is not a number for unequal to itself.
pub(crate) fn identical(a: &glam::Vec3, b: &glam::Vec3) -> (same: bool)
    ensures
        same == alike(*a, *b),
{
    settle(raw_x_bits(a)) == settle(raw_x_bits(b)) && settle(raw_y_bits(a)) == settle(raw_y_bits(b)) && settle(raw_z_bits(a)) == settle(
        raw_z_bits(b),
    )
}

/// `glam::Vec3::ZERO`: the vector from which sums are started. Nothing is stated of it.
#[verifier::external_body]
pub(crate) fn zero_vector() -> glam::Vec3 {
    glam::Vec3::ZERO
}

/// `Clone` of `glam::Vec3`, a `Copy` type: the copy is the value.
#[verifier::external_body]
pub(crate) fn copy_point(a: &glam::Vec3) -> (copy: glam::Vec3)
    ensures
        copy == *a,
{
    *a
}

} // verus!
