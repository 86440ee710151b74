//! Enumerated trading parameters and their wire codes.
//!
//! Each enumeration marshals through an exhaustive bidirectional mapping to
//! an integer wire code.  An unrecognized wire code fails with
//! `UnknownEnumValue`; nothing is ever defaulted.

use vstd::prelude::*;
use crate::errors::MarshalError;

verus! {

/// Which side of the book an order stands on.
#[derive(Clone, Copy, Debug, PartialEq, Eq, Structural)]
pub enum OrderSide {
    /// Buy order.
    Buy,
    /// Sell order.
    Sell,
}

/// How an order executes.
#[derive(Clone, Copy, Debug, PartialEq, Eq, Structural)]
pub enum OrderType {
    /// Limit order: executes at the submitted price or better.
    LO,
    /// Enhanced limit order.
    ELO,
    /// Market order: executes at the prevailing price.
    MO,
    /// At-auction order.
    AO,
    /// At-auction limit order.
    ALO,
}

/// How long an order stays in force.
#[derive(Clone, Copy, Debug, PartialEq, Eq, Structural)]
pub enum TimeInForceType {
    /// Valid for the trading day.
    Day,
    /// Valid until cancelled.
    GoodTilCanceled,
    /// Valid until a given date.
    GoodTilDate,
}

impl OrderType {
    /// Whether an order of this type must carry a submitted price.
    pub open spec fn spec_requires_price(self) -> bool {
        match self {
            OrderType::LO => true,
            OrderType::ELO => true,
            OrderType::MO => false,
            OrderType::AO => false,
            OrderType::ALO => true,
        }
    }

    /// Whether an order of this type must carry a submitted price.
    pub fn requires_price(&self) -> (r: bool)
        ensures
            r == self.spec_requires_price(),
    {
        match self {
            OrderType::LO => true,
            OrderType::ELO => true,
            OrderType::MO => false,
            OrderType::AO => false,
            OrderType::ALO => true,
        }
    }
}

/// The wire code of an order side.
pub open spec fn spec_side_code(s: OrderSide) -> u8 {
    match s {
        OrderSide::Buy => 1,
        OrderSide::Sell => 2,
    }
}

/// The order side a wire code denotes, if any.
pub open spec fn spec_side_of_code(c: u8) -> Result<OrderSide, MarshalError> {
    match c {
        1u8 => Ok(OrderSide::Buy),
        2u8 => Ok(OrderSide::Sell),
        _ => Err(MarshalError::UnknownEnumValue),
    }
}

/// Marshals an order side to its wire code.
pub fn side_to_wire(s: &OrderSide) -> (r: u8)
    ensures
        r == spec_side_code(*s),
{
    match s {
        OrderSide::Buy => 1,
        OrderSide::Sell => 2,
    }
}

/// Unmarshals a wire code to an order side; an unrecognized code fails
/// with `UnknownEnumValue`.
pub fn side_from_wire(c: u8) -> (r: Result<OrderSide, MarshalError>)
    ensures
        r == spec_side_of_code(c),
{
    match c {
        1 => Ok(OrderSide::Buy),
        2 => Ok(OrderSide::Sell),
        _ => Err(MarshalError::UnknownEnumValue),
    }
}

/// The wire code of an order type.
pub open spec fn spec_order_type_code(t: OrderType) -> u8 {
    match t {
        OrderType::LO => 1,
        OrderType::ELO => 2,
        OrderType::MO => 3,
        OrderType::AO => 4,
        OrderType::ALO => 5,
    }
}

/// The order type a wire code denotes, if any.
pub open spec fn spec_order_type_of_code(c: u8) -> Result<OrderType, MarshalError> {
    match c {
        1u8 => Ok(OrderType::LO),
        2u8 => Ok(OrderType::ELO),
        3u8 => Ok(OrderType::MO),
        4u8 => Ok(OrderType::AO),
        5u8 => Ok(OrderType::ALO),
        _ => Err(MarshalError::UnknownEnumValue),
    }
}

/// Marshals an order type to its wire code.
pub fn order_type_to_wire(t: &OrderType) -> (r: u8)
    ensures
        r == spec_order_type_code(*t),
{
    match t {
        OrderType::LO => 1,
        OrderType::ELO => 2,
        OrderType::MO => 3,
        OrderType::AO => 4,
        OrderType::ALO => 5,
    }
}

/// Unmarshals a wire code to an order type; an unrecognized code fails
/// with `UnknownEnumValue`.
pub fn order_type_from_wire(c: u8) -> (r: Result<OrderType, MarshalError>)
    ensures
        r == spec_order_type_of_code(c),
{
    match c {
        1 => Ok(OrderType::LO),
        2 => Ok(OrderType::ELO),
        3 => Ok(OrderType::MO),
        4 => Ok(OrderType::AO),
        5 => Ok(OrderType::ALO),
        _ => Err(MarshalError::UnknownEnumValue),
    }
}

/// The wire code of a time-in-force.
pub open spec fn spec_tif_code(t: TimeInForceType) -> u8 {
    match t {
        TimeInForceType::Day => 1,
        TimeInForceType::GoodTilCanceled => 2,
        TimeInForceType::GoodTilDate => 3,
    }
}

/// The time-in-force a wire code denotes, if any.
pub open spec fn spec_tif_of_code(c: u8) -> Result<TimeInForceType, MarshalError> {
    match c {
        1u8 => Ok(TimeInForceType::Day),
        2u8 => Ok(TimeInForceType::GoodTilCanceled),
        3u8 => Ok(TimeInForceType::GoodTilDate),
        _ => Err(MarshalError::UnknownEnumValue),
    }
}

/// Marshals a time-in-force to its wire code.
pub fn tif_to_wire(t: &TimeInForceType) -> (r: u8)
    ensures
        r == spec_tif_code(*t),
{
    match t {
        TimeInForceType::Day => 1,
        TimeInForceType::GoodTilCanceled => 2,
        TimeInForceType::GoodTilDate => 3,
    }
}

/// Unmarshals a wire code to a time-in-force; an unrecognized code fails
/// with `UnknownEnumValue`.
pub fn tif_from_wire(c: u8) -> (r: Result<TimeInForceType, MarshalError>)
    ensures
        r == spec_tif_of_code(c),
{
    match c {
        1 => Ok(TimeInForceType::Day),
        2 => Ok(TimeInForceType::GoodTilCanceled),
        3 => Ok(TimeInForceType::GoodTilDate),
        _ => Err(MarshalError::UnknownEnumValue),
    }
}

/// Every enumeration marshals through an exhaustive bijection: decoding the
/// code of any variant yields that variant back, and any code that decodes
/// at all re-encodes to itself.
pub proof fn lemma_enum_codes_bijective(s: OrderSide, t: OrderType, f: TimeInForceType, c: u8)
    ensures
        spec_side_of_code(spec_side_code(s)) == Ok::<OrderSide, MarshalError>(s),
        spec_order_type_of_code(spec_order_type_code(t)) == Ok::<OrderType, MarshalError>(t),
        spec_tif_of_code(spec_tif_code(f)) == Ok::<TimeInForceType, MarshalError>(f),
        spec_side_of_code(c) matches Ok(side) ==> spec_side_code(side) == c,
        spec_order_type_of_code(c) matches Ok(ty) ==> spec_order_type_code(ty) == c,
        spec_tif_of_code(c) matches Ok(tf) ==> spec_tif_code(tf) == c,
{
}

} // verus!
