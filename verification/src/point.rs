use vstd::prelude::*;

verus! {

/// Points of a player or of a payment.
pub type Point = i32;

/// Smallest unit in which points are counted.
pub const UNIT_POINT: Point = 100;

/// Most points that can be held.
pub const MAX_POINT: Point = 1_000_000;

/// Fewest points a setting may name.
pub const MIN_POINT: Point = 0;

/// Most points a riichi bet may be.
pub const MAX_LIZHIBANG_POINT: Point = 10_000;

/// Most points a repeat counter may be worth.
pub const MAX_CHANGBANG_POINT: Point = 10_000;

/// Order bonus.
pub type Ma = i32;

/// Greatest order bonus.
pub const MAX_MA: Ma = 10_000;

/// Least order bonus.
pub const MIN_MA: Ma = -10_000;

/// Why a number of points was rejected.
#[derive(Debug, Clone, Copy, PartialEq, Eq, Structural)]
pub enum PointError {
    /// Below 0.
    TooSmall(Point),
    /// Above the greatest value allowed.
    TooLarge(Point),
    /// Not a multiple of 100.
    NotMultipleOfUnit(Point),
}

/// Why an order bonus was rejected.
#[derive(Debug, Clone, Copy, PartialEq, Eq, Structural)]
pub enum MaError {
    /// Below -10000.
    TooSmall(Ma),
    /// Above 10000.
    TooLarge(Ma),
}

/// What validating `point` against the upper limit `max` yields: it must be
/// at least 0, at most `max` and a multiple of 100, checked in this order.
pub open spec fn validate_point_spec(point: Point, max: Point) -> Result<(), PointError> {
    if point < MIN_POINT {
        Err(PointError::TooSmall(point))
    } else if point > max {
        Err(PointError::TooLarge(point))
    } else if point % UNIT_POINT != 0 {
        Err(PointError::NotMultipleOfUnit(point))
    } else {
        Ok(())
    }
}

/// What validating an order bonus yields: it must lie between -10000 and 10000.
pub open spec fn validate_ma_spec(ma: Ma) -> Result<(), MaError> {
    if ma < MIN_MA {
        Err(MaError::TooSmall(ma))
    } else if ma > MAX_MA {
        Err(MaError::TooLarge(ma))
    } else {
        Ok(())
    }
}

fn validate_point_below(point: Point, max: Point) -> (r: Result<(), PointError>)
    ensures
        r == validate_point_spec(point, max),
{
    if point < MIN_POINT {
        Err(PointError::TooSmall(point))
    } else if point > max {
        Err(PointError::TooLarge(point))
    } else if point % UNIT_POINT != 0 {
        Err(PointError::NotMultipleOfUnit(point))
    } else {
        Ok(())
    }
}

/// Validates a number of points: 0 to 1000000 in steps of 100.
pub fn validate_point(point: &Point) -> (r: Result<(), PointError>)
    ensures
        r == validate_point_spec(*point, MAX_POINT),
{
    validate_point_below(*point, MAX_POINT)
}

/// Validates the points of a riichi bet: 0 to 10000 in steps of 100.
pub fn validate_lizhibang_point(point: &Point) -> (r: Result<(), PointError>)
    ensures
        r == validate_point_spec(*point, MAX_LIZHIBANG_POINT),
{
    validate_point_below(*point, MAX_LIZHIBANG_POINT)
}

/// Validates the points of a repeat counter: 0 to 10000 in steps of 100.
pub fn validate_changbang_point(point: &Point) -> (r: Result<(), PointError>)
    ensures
        r == validate_point_spec(*point, MAX_CHANGBANG_POINT),
{
    validate_point_below(*point, MAX_CHANGBANG_POINT)
}

/// Validates an order bonus: -10000 to 10000.
pub fn validate_ma(ma: &Ma) -> (r: Result<(), MaError>)
    ensures
        r == validate_ma_spec(*ma),
{
    if *ma < MIN_MA {
        Err(MaError::TooSmall(*ma))
    } else if *ma > MAX_MA {
        Err(MaError::TooLarge(*ma))
    } else {
        Ok(())
    }
}

} // verus!
