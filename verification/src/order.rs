//! Order submission options, their validation, and the wire form of
//! orders.
//!
//! Quantities and prices are fixed-point decimals end-to-end; enumerated
//! parameters travel as wire codes; the submission instant travels as a
//! whole-second wire timestamp.  Validation rejects an order before
//! anything is marshaled; unmarshaling rejects unknown codes and
//! malformed decimals rather than defaulting.

use vstd::prelude::*;
use crate::decimal::{Decimal, spec_decimal_str, to_wire_decimal, from_wire_decimal};
use crate::errors::MarshalError;
use crate::timestamp::{Timestamp, spec_to_wire, spec_from_wire, to_wire_time, from_wire_time};
use crate::trade::{
    OrderSide,
    OrderType,
    TimeInForceType,
    spec_side_code,
    spec_side_of_code,
    spec_order_type_code,
    spec_order_type_of_code,
    spec_tif_code,
    spec_tif_of_code,
    side_to_wire,
    side_from_wire,
    order_type_to_wire,
    order_type_from_wire,
    tif_to_wire,
    tif_from_wire,
};

verus! {

/// Longest remark an order may carry, in bytes.
pub const MAX_REMARK_LEN: usize = 64;

/// Why an order was rejected before submission.
#[derive(Clone, Copy, Debug, PartialEq, Eq, Structural)]
pub enum OrderValidationError {
    /// The symbol is empty.
    EmptySymbol,
    /// The quantity is zero or negative.
    QuantityNotPositive,
    /// The quantity is not a whole number of lots.
    QuantityNotIntegral,
    /// The order type requires a submitted price but none was given.
    MissingSubmittedPrice,
    /// A submitted price was given but is zero or negative.
    PriceNotPositive,
    /// The remark exceeds the permitted length.
    RemarkTooLong,
}

/// What a caller supplies to submit an order.
pub struct SubmitOrderOptions {
    /// Exchange-qualified symbol.
    pub symbol: Vec<u8>,
    /// How the order executes.
    pub order_type: OrderType,
    /// Which side of the book.
    pub side: OrderSide,
    /// How much to trade: a positive whole number of units.
    pub quantity: Decimal,
    /// Price for price-bearing order types.
    pub submitted_price: Option<Decimal>,
    /// How long the order stays in force.
    pub time_in_force: TimeInForceType,
    /// Free-form bounded note.
    pub remark: Vec<u8>,
}

impl SubmitOrderOptions {
    /// Structural well-formedness of the decimals carried.
    pub open spec fn wf(self) -> bool {
        &&& self.quantity.wf()
        &&& self.submitted_price matches Some(p) ==> p.wf()
    }

    /// The first reason to reject these options, if any: an empty
    /// symbol, a non-positive or fractional quantity, a missing or
    /// non-positive price on a price-bearing type, or an oversized
    /// remark.
    pub open spec fn spec_validate(self) -> Result<(), OrderValidationError> {
        if self.symbol.len() == 0 {
            Err(OrderValidationError::EmptySymbol)
        } else if !self.quantity.spec_is_positive() {
            Err(OrderValidationError::QuantityNotPositive)
        } else if !self.quantity.spec_is_integral() {
            Err(OrderValidationError::QuantityNotIntegral)
        } else if self.order_type.spec_requires_price() && self.submitted_price is None {
            Err(OrderValidationError::MissingSubmittedPrice)
        } else if self.submitted_price matches Some(p) && !p.spec_is_positive() {
            Err(OrderValidationError::PriceNotPositive)
        } else if self.remark.len() > MAX_REMARK_LEN {
            Err(OrderValidationError::RemarkTooLong)
        } else {
            Ok(())
        }
    }

    /// Checks the options; `Ok` exactly when every rule of
    /// `spec_validate` holds, otherwise the first violated rule.
    pub fn validate(&self) -> (r: Result<(), OrderValidationError>)
        ensures
            r == self.spec_validate(),
    {
        if self.symbol.len() == 0 {
            Err(OrderValidationError::EmptySymbol)
        } else if !self.quantity.is_positive() {
            Err(OrderValidationError::QuantityNotPositive)
        } else if !self.quantity.is_integral() {
            Err(OrderValidationError::QuantityNotIntegral)
        } else if self.order_type.requires_price() && self.submitted_price.is_none() {
            Err(OrderValidationError::MissingSubmittedPrice)
        } else if self.submitted_price.is_some() && !self.submitted_price.as_ref().unwrap()
            .is_positive() {
            Err(OrderValidationError::PriceNotPositive)
        } else if self.remark.len() > MAX_REMARK_LEN {
            Err(OrderValidationError::RemarkTooLong)
        } else {
            Ok(())
        }
    }
}

/// An order as it crosses the wire: codes for the enumerations, decimal
/// strings for quantity and price, a whole-second timestamp.
#[derive(Debug, PartialEq, Eq)]
pub struct WireOrder {
    /// Exchange-qualified symbol, as given.
    pub symbol: Vec<u8>,
    /// Wire code of the side.
    pub side_code: u8,
    /// Wire code of the order type.
    pub type_code: u8,
    /// Quantity as a wire decimal string.
    pub quantity: Vec<u8>,
    /// Submitted price as a wire decimal string, if any.
    pub price: Option<Vec<u8>>,
    /// Wire code of the time-in-force.
    pub tif_code: u8,
    /// Free-form bounded note, as given.
    pub remark: Vec<u8>,
    /// Submission instant, truncated to whole seconds.
    pub submitted_at: i64,
}

/// An order as the caller sees it after decoding.
#[derive(Debug, PartialEq, Eq)]
pub struct Order {
    /// Exchange-qualified symbol.
    pub symbol: Vec<u8>,
    /// How the order executes.
    pub order_type: OrderType,
    /// Which side of the book.
    pub side: OrderSide,
    /// How much is traded.
    pub quantity: Decimal,
    /// Submitted price, if the type bears one.
    pub submitted_price: Option<Decimal>,
    /// How long the order stays in force.
    pub time_in_force: TimeInForceType,
    /// Free-form bounded note.
    pub remark: Vec<u8>,
    /// Submission instant, zero sub-second component.
    pub submitted_at: Timestamp,
}

/// Marshals submission options and their submission instant to the wire.
/// Exact: enumerations by their codes, decimals as canonical strings,
/// the instant truncated to whole seconds.
pub fn marshal_order(opts: SubmitOrderOptions, submitted_at: &Timestamp) -> (r: WireOrder)
    requires
        opts.wf(),
    ensures
        r.symbol@ == opts.symbol@,
        r.side_code == spec_side_code(opts.side),
        r.type_code == spec_order_type_code(opts.order_type),
        r.quantity@ == spec_decimal_str(opts.quantity),
        opts.submitted_price matches Some(p) ==> r.price matches Some(w) && w@
            == spec_decimal_str(p),
        opts.submitted_price is None ==> r.price is None,
        r.tif_code == spec_tif_code(opts.time_in_force),
        r.remark@ == opts.remark@,
        r.submitted_at == spec_to_wire(*submitted_at),
{
    let price: Option<Vec<u8>> = match &opts.submitted_price {
        Some(p) => Some(to_wire_decimal(p)),
        None => None,
    };
    let side_code = side_to_wire(&opts.side);
    let type_code = order_type_to_wire(&opts.order_type);
    let quantity = to_wire_decimal(&opts.quantity);
    let tif_code = tif_to_wire(&opts.time_in_force);
    WireOrder {
        symbol: opts.symbol,
        side_code,
        type_code,
        quantity,
        price,
        tif_code,
        remark: opts.remark,
        submitted_at: to_wire_time(submitted_at),
    }
}

/// Whether a byte sequence is the canonical wire string of some decimal.
pub open spec fn decodes_to_decimal(s: Seq<u8>) -> bool {
    exists|d: Decimal| d.wf() && s == spec_decimal_str(d)
}

/// Whether every field of a wire order decodes: the codes are known, the
/// decimal strings canonical, the timestamp representable.
pub open spec fn spec_wire_order_ok(w: WireOrder) -> bool {
    &&& spec_side_of_code(w.side_code) is Ok
    &&& spec_order_type_of_code(w.type_code) is Ok
    &&& spec_tif_of_code(w.tif_code) is Ok
    &&& spec_from_wire(w.submitted_at) is Ok
    &&& decodes_to_decimal(w.quantity@)
    &&& w.price matches Some(ps) ==> decodes_to_decimal(ps@)
}

/// How a decoded order relates to the wire order it came from: every
/// field is the exact decoding of its wire counterpart.
pub open spec fn spec_order_decoded(w: WireOrder, o: Order) -> bool {
    &&& o.symbol@ == w.symbol@
    &&& spec_side_of_code(w.side_code) == Ok::<OrderSide, MarshalError>(o.side)
    &&& spec_order_type_of_code(w.type_code) == Ok::<OrderType, MarshalError>(o.order_type)
    &&& o.quantity.wf() && w.quantity@ == spec_decimal_str(o.quantity)
    &&& (w.price matches Some(ps) ==> o.submitted_price matches Some(p) && p.wf() && ps@
        == spec_decimal_str(p))
    &&& (w.price is None ==> o.submitted_price is None)
    &&& spec_tif_of_code(w.tif_code) == Ok::<TimeInForceType, MarshalError>(o.time_in_force)
    &&& o.remark@ == w.remark@
    &&& spec_from_wire(w.submitted_at) == Ok::<Timestamp, MarshalError>(o.submitted_at)
}

/// Unmarshals a wire order.  Succeeds exactly when every field decodes:
/// the codes are known, the decimal strings are canonical, and the
/// timestamp is representable; the error is the first field's failure.
pub fn unmarshal_order(w: WireOrder) -> (r: Result<Order, MarshalError>)
    ensures
        r matches Ok(o) ==> spec_order_decoded(w, o),
        r matches Err(e) ==> {
            ||| spec_side_of_code(w.side_code) == Err::<OrderSide, MarshalError>(e)
            ||| spec_order_type_of_code(w.type_code) == Err::<OrderType, MarshalError>(e)
            ||| (e == MarshalError::InvalidDecimal && !decodes_to_decimal(w.quantity@))
            ||| (e == MarshalError::InvalidDecimal && (w.price matches Some(ps)
                && !decodes_to_decimal(ps@)))
            ||| spec_tif_of_code(w.tif_code) == Err::<TimeInForceType, MarshalError>(e)
            ||| spec_from_wire(w.submitted_at) == Err::<Timestamp, MarshalError>(e)
        },
        spec_wire_order_ok(w) ==> r is Ok,
{
    let side = match side_from_wire(w.side_code) {
        Ok(s) => s,
        Err(e) => {
            return Err(e);
        },
    };
    let order_type = match order_type_from_wire(w.type_code) {
        Ok(t) => t,
        Err(e) => {
            return Err(e);
        },
    };
    let quantity = match from_wire_decimal(&w.quantity) {
        Ok(d) => d,
        Err(e) => {
            return Err(e);
        },
    };
    let submitted_price: Option<Decimal> = match &w.price {
        Some(ps) => {
            match from_wire_decimal(ps) {
                Ok(d) => Some(d),
                Err(e) => {
                    return Err(e);
                },
            }
        },
        None => None,
    };
    let time_in_force = match tif_from_wire(w.tif_code) {
        Ok(t) => t,
        Err(e) => {
            return Err(e);
        },
    };
    let submitted_at = match from_wire_time(w.submitted_at) {
        Ok(t) => t,
        Err(e) => {
            return Err(e);
        },
    };
    Ok(
        Order {
            symbol: w.symbol,
            order_type,
            side,
            quantity,
            submitted_price,
            time_in_force,
            remark: w.remark,
            submitted_at,
        },
    )
}

/// Decodes a received sequence of wire orders, preserving their order
/// (the backend sends them ordered by submission time).  Succeeds
/// exactly when every element decodes; the first failure is returned.
pub fn decode_orders(w: Vec<WireOrder>) -> (r: Result<Vec<Order>, MarshalError>)
    ensures
        r matches Ok(os) ==> os@.len() == w@.len() && (forall|i: int|
            0 <= i < w@.len() ==> spec_order_decoded(w@[i], #[trigger] os@[i])),
        (forall|i: int| 0 <= i < w@.len() ==> spec_wire_order_ok(#[trigger] w@[i])) ==> r is Ok,
        r is Err ==> exists|i: int| 0 <= i < w@.len() && !spec_wire_order_ok(#[trigger] w@[i]),
{
    let ghost orig = w@;
    let mut rest = w;
    let mut out: Vec<Order> = Vec::new();
    while rest.len() > 0
        invariant
            orig == w@,
            out@.len() + rest@.len() == orig.len(),
            rest@ =~= orig.subrange(out@.len() as int, orig.len() as int),
            forall|i: int| 0 <= i < out@.len() ==> spec_order_decoded(orig[i], #[trigger] out@[i]),
        decreases rest.len(),
    {
        let ghost k = out@.len() as int;
        let x = rest.remove(0);
        proof {
            assert(x == orig[k]);
        }
        match unmarshal_order(x) {
            Ok(o) => out.push(o),
            Err(e) => {
                proof {
                    assert(!spec_wire_order_ok(orig[k]));
                }
                return Err(e);
            },
        }
    }
    Ok(out)
}

/// Marshaling an order is faithful: the wire order written for any
/// well-formed options always decodes, and whatever it decodes to
/// carries the identical side, type, time-in-force, quantity, price,
/// symbol and remark, with the submission instant truncated to whole
/// seconds — nothing drifts on the way to the wire and back.
pub proof fn lemma_order_marshal_faithful(
    w: WireOrder,
    o: Order,
    opts: SubmitOrderOptions,
    t: Timestamp,
)
    requires
        opts.wf(),
        t.wf(),
        w.symbol@ == opts.symbol@,
        w.side_code == spec_side_code(opts.side),
        w.type_code == spec_order_type_code(opts.order_type),
        w.quantity@ == spec_decimal_str(opts.quantity),
        opts.submitted_price matches Some(p) ==> w.price matches Some(ps) && ps@
            == spec_decimal_str(p),
        opts.submitted_price is None ==> w.price is None,
        w.tif_code == spec_tif_code(opts.time_in_force),
        w.remark@ == opts.remark@,
        w.submitted_at == spec_to_wire(t),
        spec_order_decoded(w, o),
    ensures
        o.side == opts.side,
        o.order_type == opts.order_type,
        o.time_in_force == opts.time_in_force,
        o.quantity == opts.quantity,
        o.submitted_price == opts.submitted_price,
        o.symbol@ == opts.symbol@,
        o.remark@ == opts.remark@,
        o.submitted_at == t.truncated(),
{
    crate::trade::lemma_enum_codes_bijective(opts.side, opts.order_type, opts.time_in_force, 0);
    crate::decimal::lemma_decimal_round_trip(o.quantity, opts.quantity);
    if opts.submitted_price is Some {
        crate::decimal::lemma_decimal_round_trip(
            o.submitted_price->0,
            opts.submitted_price->0,
        );
    }
    crate::timestamp::lemma_wire_round_trip_truncates(t);
}

/// The wire order written for well-formed options always decodes.
pub proof fn lemma_marshaled_order_decodes(w: WireOrder, opts: SubmitOrderOptions, t: Timestamp)
    requires
        opts.wf(),
        t.wf(),
        w.side_code == spec_side_code(opts.side),
        w.type_code == spec_order_type_code(opts.order_type),
        w.quantity@ == spec_decimal_str(opts.quantity),
        opts.submitted_price matches Some(p) ==> w.price matches Some(ps) && ps@
            == spec_decimal_str(p),
        opts.submitted_price is None ==> w.price is None,
        w.tif_code == spec_tif_code(opts.time_in_force),
        w.submitted_at == spec_to_wire(t),
    ensures
        spec_wire_order_ok(w),
{
    crate::trade::lemma_enum_codes_bijective(opts.side, opts.order_type, opts.time_in_force, 0);
    crate::timestamp::lemma_wire_round_trip_truncates(t);
    assert(decodes_to_decimal(w.quantity@));
    if opts.submitted_price is Some {
        let p = opts.submitted_price->0;
        let ps = w.price->0;
        assert(p.wf() && ps@ == spec_decimal_str(p));
        assert(decodes_to_decimal(ps@));
    }
}

} // verus!
