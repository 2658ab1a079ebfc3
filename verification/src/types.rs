//! Core domain types. All prices and quantities are fixed-point `i64`.
use crate::text::{
    chars_of, decimal, find_char, numeral_value, parse_numeral, position_of, push_decimal, trim_bounds,
    trimmed,
};
use std::time::Instant;
use vstd::arithmetic::power::pow;
use vstd::prelude::*;
use vstd::utf8::encode_utf8;

verus! {

/// Fixed-point price, in units of `10^-price_scale`.
pub type Price = i64;

/// Fixed-point quantity, in units of `10^-quantity_scale`.
pub type Quantity = i64;

/// Instrument symbol, such as `TSLA`.
pub type Symbol = String;

/// Order identifier assigned by the venue.
pub type OrderId = String;

/// Normalisation parameters of one instrument.
#[derive(Debug, Clone)]
pub struct InstrumentSpec {
    pub symbol: Symbol,
    /// Number of decimal places that prices are stored with.
    pub price_scale: u32,
    /// Number of decimal places that quantities are stored with.
    pub quantity_scale: u32,
}

/// Side of an order.
#[derive(Debug, Clone, Copy, PartialEq, Eq, Hash, Structural)]
pub enum Side {
    Buy,
    Sell,
}

impl Side {
    /// The other side, as a mathematical function.
    pub open spec fn spec_opposite(self) -> Side {
        match self {
            Side::Buy => Side::Sell,
            Side::Sell => Side::Buy,
        }
    }

    /// The other side.
    pub fn opposite(&self) -> (other: Side)
        ensures
            other == self.spec_opposite(),
            other != *self,
    {
        match self {
            Side::Buy => Side::Sell,
            Side::Sell => Side::Buy,
        }
    }

    /// Taking the other side twice leads back.
    pub proof fn law_opposite_is_an_involution(self)
        ensures
            self.spec_opposite().spec_opposite() == self,
    {
    }
}

#[derive(Debug, Clone, PartialEq, Eq)]
pub enum OrderType {
    Limit { price: Price, post_only: bool },
    Market,
}

#[derive(Debug, Clone, PartialEq, Eq)]
pub enum TimeInForce {
    /// Good till cancelled.
    Gtc,
    /// Immediate or cancel.
    Ioc,
    /// Fill or kill.
    Fok,
}

#[derive(Debug, Clone)]
pub struct Order {
    pub instrument: Symbol,
    pub side: Side,
    pub quantity: Quantity,
    pub order_type: OrderType,
    pub tif: TimeInForce,
}

#[derive(Debug, Clone)]
pub struct Fill {
    pub order_id: OrderId,
    pub instrument: Symbol,
    pub side: Side,
    pub price: Price,
    pub quantity: Quantity,
    pub timestamp: Instant,
}

#[derive(Debug, Clone, Default)]
pub struct Position {
    pub instrument: Symbol,
    /// Net position in normalised quantity units: positive is long, negative is short.
    pub quantity: i64,
}

// Normalisation

/// Why a text is not normalised.
#[derive(Debug)]
pub enum NormalizationError {
    InvalidNumber(String),
    ExcessivePrecision { value: String, max_scale: u32, got_scale: u32 },
}

/// A `NormalizationError` with its text as a sequence of characters.
pub enum NormalizationFault {
    InvalidNumber(Seq<char>),
    ExcessivePrecision { value: Seq<char>, max_scale: u32, got_scale: u32 },
}

impl View for NormalizationError {
    type V = NormalizationFault;

    open spec fn view(&self) -> NormalizationFault {
        match *self {
            NormalizationError::InvalidNumber(text) => NormalizationFault::InvalidNumber(text@),
            NormalizationError::ExcessivePrecision { value, max_scale, got_scale } =>
                NormalizationFault::ExcessivePrecision { value: value@, max_scale, got_scale },
        }
    }
}

impl NormalizationFault {
    /// The sentence that reports the fault.
    pub open spec fn message(self) -> Seq<char> {
        match self {
            NormalizationFault::InvalidNumber(text) => "Invalid number: "@ + text,
            NormalizationFault::ExcessivePrecision { value, max_scale, got_scale } => "Value '"@
                + value + "' has "@ + decimal(got_scale as nat)
                + " decimal places, max allowed is "@ + decimal(max_scale as nat),
        }
    }
}

impl NormalizationError {
    /// The sentence that reports the error.
    pub fn message(&self) -> (text: String)
        ensures
            text@ == self@.message(),
    {
        match self {
            NormalizationError::InvalidNumber(number) => {
                let mut text = "Invalid number: ".to_string();
                text.append(number.as_str());
                text
            },
            NormalizationError::ExcessivePrecision { value, max_scale, got_scale } => {
                let mut text = "Value '".to_string();
                text.append(value.as_str());
                text.append("' has ");
                push_decimal(&mut text, *got_scale as u128);
                text.append(" decimal places, max allowed is ");
                push_decimal(&mut text, *max_scale as u128);
                text
            },
        }
    }
}

/// The text starts with a minus sign, once the whitespace around it is gone.
pub open spec fn is_negative(raw: Seq<char>) -> bool {
    trimmed(raw).len() > 0 && trimmed(raw)[0] == '-'
}

/// The text without the whitespace around it and without its leading minus sign.
pub open spec fn magnitude(raw: Seq<char>) -> Seq<char> {
    if is_negative(raw) {
        trimmed(raw).skip(1)
    } else {
        trimmed(raw)
    }
}

/// What stands before the first point, or all of the text where there is none.
pub open spec fn whole_part(text: Seq<char>) -> Seq<char> {
    text.take(position_of(text, '.'))
}

/// What stands behind the first point, or nothing where there is none.
pub open spec fn fraction_part(text: Seq<char>) -> Seq<char> {
    if position_of(text, '.') < text.len() {
        text.skip(position_of(text, '.') + 1)
    } else {
        Seq::empty()
    }
}

/// The number of decimal places of a fraction: its length in UTF-8, counted in a `u32`.
pub open spec fn places(fraction: Seq<char>) -> u32 {
    (encode_utf8(fraction).len() % 0x1_0000_0000) as u32
}

/// The value of a fraction's digits; no digits count as zero.
pub open spec fn fraction_value(fraction: Seq<char>) -> Option<int> {
    if fraction.len() == 0 {
        Some(0)
    } else {
        numeral_value(fraction)
    }
}

/// The fixed-point value of a decimal text at `scale` decimal places, or why it has none.
pub open spec fn normalized(raw: Seq<char>, scale: u32) -> Result<int, NormalizationFault> {
    let text = magnitude(raw);
    let fraction = fraction_part(text);
    if places(fraction) > scale {
        Err(
            NormalizationFault::ExcessivePrecision {
                value: text,
                max_scale: scale,
                got_scale: places(fraction),
            },
        )
    } else {
        match (numeral_value(whole_part(text)), fraction_value(fraction)) {
            (Some(whole), Some(part)) => {
                let amount = whole * pow(10, scale as nat) + part * pow(
                    10,
                    (scale - places(fraction)) as nat,
                );
                Ok(
                    if is_negative(raw) {
                        -amount
                    } else {
                        amount
                    },
                )
            },
            _ => Err(NormalizationFault::InvalidNumber(text)),
        }
    }
}

/// `x` is a value of type `i64`.
pub open spec fn in_i64(x: int) -> bool {
    i64::MIN <= x <= i64::MAX
}

/// Nothing that has to be computed for the value of `raw` is out of the range of `i64`.
pub open spec fn normalization_fits(raw: Seq<char>, scale: u32) -> bool {
    let text = magnitude(raw);
    let fraction = fraction_part(text);
    match (numeral_value(whole_part(text)), fraction_value(fraction)) {
        (Some(whole), Some(part)) => places(fraction) <= scale ==> {
            let unit = pow(10, scale as nat);
            let pad = pow(10, (scale - places(fraction)) as nat);
            let amount = whole * unit + part * pad;
            &&& in_i64(unit)
            &&& in_i64(whole * unit)
            &&& in_i64(part * pad)
            &&& in_i64(amount)
            &&& is_negative(raw) ==> in_i64(-amount)
        },
        _ => true,
    }
}

/// A result of normalisation is the one that `normalized` gives.
pub open spec fn is_normalized(
    result: Result<i64, NormalizationError>,
    raw: Seq<char>,
    scale: u32,
) -> bool {
    match result {
        Ok(value) => normalized(raw, scale) == Ok::<int, NormalizationFault>(value as int),
        Err(error) => normalized(raw, scale) == Err::<int, NormalizationFault>(error@),
    }
}

proof fn lemma_ten_pow_18()
    ensures
        pow(10, 18) == 1_000_000_000_000_000_000,
        pow(10, 19) == 10_000_000_000_000_000_000,
{
    reveal_with_fuel(pow, 20);
}

fn ten_pow(n: u32) -> (power: i64)
    requires
        n <= 18,
    ensures
        power == pow(10, n as nat),
        1 <= power <= 1_000_000_000_000_000_000,
{
    let mut power: i64 = 1;
    let mut i: u32 = 0;
    proof {
        lemma_ten_pow_18();
        vstd::arithmetic::power::lemma_pow0(10);
    }
    while i < n
        invariant
            i <= n <= 18,
            power == pow(10, i as nat),
            pow(10, 18) == 1_000_000_000_000_000_000,
        decreases n - i,
    {
        proof {
            vstd::arithmetic::power::lemma_pow_increases(10, (i + 1) as nat, 18);
            vstd::arithmetic::power::lemma_pow_adds(10, i as nat, 1);
            vstd::arithmetic::power::lemma_pow_positive(10, i as nat);
            vstd::arithmetic::power::lemma_pow1(10);
        }
        power = power * 10;
        i += 1;
    }
    proof {
        vstd::arithmetic::power::lemma_pow_increases(10, n as nat, 18);
        vstd::arithmetic::power::lemma_pow_positive(10, n as nat);
    }
    power
}

/// Normalises a decimal text to fixed point, or gives `None` where a value on the way is out
/// of range.
fn try_normalize(raw: &str, scale: u32) -> (result: Option<Result<i64, NormalizationError>>)
    ensures
        result is Some <==> normalization_fits(raw@, scale),
        result is Some ==> is_normalized(result->0, raw@, scale),
{
    let chars = chars_of(raw);
    let bounds = trim_bounds(&chars);
    let negative = bounds.0 < bounds.1 && chars[bounds.0] == '-';
    let from: usize = if negative {
        bounds.0 + 1
    } else {
        bounds.0
    };
    let to: usize = bounds.1;
    let ghost text = magnitude(raw@);
    assert(negative == is_negative(raw@));
    assert(text =~= chars@.subrange(from as int, to as int));
    let dot: usize = find_char(&chars, from, to, '.');
    let frac_from: usize = if dot < to {
        dot + 1
    } else {
        to
    };
    let ghost fraction = fraction_part(text);
    assert(whole_part(text) =~= chars@.subrange(from as int, dot as int));
    assert(fraction =~= chars@.subrange(frac_from as int, to as int));
    let frac = raw.substring_char(frac_from, to);
    let frac_len: u32 = low_u32(frac.as_bytes().len());
    if frac_len > scale {
        return Some(
            Err(
                NormalizationError::ExcessivePrecision {
                    value: raw.substring_char(from, to).to_string(),
                    max_scale: scale,
                    got_scale: frac_len,
                },
            ),
        );
    }
    let whole = match parse_numeral(&chars, from, dot) {
        Some(whole) => whole,
        None => {
            return Some(
                Err(NormalizationError::InvalidNumber(raw.substring_char(from, to).to_string())),
            );
        },
    };
    let part = if frac_from == to {
        0
    } else {
        match parse_numeral(&chars, frac_from, to) {
            Some(part) => part,
            None => {
                return Some(
                    Err(
                        NormalizationError::InvalidNumber(raw.substring_char(from, to).to_string()),
                    ),
                );
            },
        }
    };
    if scale > 18 {
        proof {
            lemma_ten_pow_18();
            vstd::arithmetic::power::lemma_pow_increases(10, 19, scale as nat);
        }
        return None;
    }
    let unit: i128 = ten_pow(scale) as i128;
    let pad: i128 = ten_pow(scale - frac_len) as i128;
    proof {
        lemma_product_bound(whole as int, unit as int);
        lemma_product_bound(part as int, pad as int);
    }
    let scaled: i128 = whole as i128 * unit;
    let padded: i128 = part as i128 * pad;
    let amount: i128 = scaled + padded;
    if !is_i64(scaled) || !is_i64(padded) || !is_i64(amount) || (negative && !is_i64(-amount)) {
        return None;
    }
    Some(
        Ok(
            if negative {
                (-amount) as i64
            } else {
                amount as i64
            },
        ),
    )
}

fn is_i64(x: i128) -> (yes: bool)
    ensures
        yes == in_i64(x as int),
{
    -9_223_372_036_854_775_808 <= x && x <= 9_223_372_036_854_775_807
}

fn low_u32(n: usize) -> (low: u32)
    ensures
        low as int == n as int % 0x1_0000_0000,
{
    let wide: u64 = n as u64;
    (wide % 0x1_0000_0000) as u32
}

proof fn lemma_product_bound(x: int, y: int)
    requires
        in_i64(x),
        1 <= y <= 1_000_000_000_000_000_000,
    ensures
        -10_000_000_000_000_000_000_000_000_000_000_000_000 <= x * y
            <= 10_000_000_000_000_000_000_000_000_000_000_000_000,
{
    assert(-9_223_372_036_854_775_808 * 1_000_000_000_000_000_000 <= x * y
        <= 9_223_372_036_854_775_808 * 1_000_000_000_000_000_000) by (nonlinear_arith)
        requires
            -9_223_372_036_854_775_808 <= x <= 9_223_372_036_854_775_808,
            1 <= y <= 1_000_000_000_000_000_000,
    ;
}

impl InstrumentSpec {
    pub fn new(symbol: &str, price_scale: u32, quantity_scale: u32) -> (spec: Self)
        ensures
            spec.symbol@ == symbol@,
            spec.price_scale == price_scale,
            spec.quantity_scale == quantity_scale,
    {
        InstrumentSpec { symbol: symbol.to_string(), price_scale, quantity_scale }
    }

    /// Normalises a decimal price text to fixed point: at scale 4, `180.45` is 1804500.
    pub fn normalize_price(&self, raw: &str) -> (price: Result<Price, NormalizationError>)
        requires
            normalization_fits(raw@, self.price_scale),
        ensures
            is_normalized(price, raw@, self.price_scale),
            match price {
                Ok(value) => normalized(raw@, self.price_scale) == Ok::<int, NormalizationFault>(value as int),
                Err(error) => normalized(raw@, self.price_scale) == Err::<int, NormalizationFault>(error@),
            },
    {
        normalize_decimal(raw, self.price_scale)
    }

    /// Normalises a decimal quantity text to fixed point.
    pub fn normalize_quantity(&self, raw: &str) -> (quantity: Result<Quantity, NormalizationError>)
        requires
            normalization_fits(raw@, self.quantity_scale),
        ensures
            is_normalized(quantity, raw@, self.quantity_scale),
            match quantity {
                Ok(value) => normalized(raw@, self.quantity_scale) == Ok::<int, NormalizationFault>(value as int),
                Err(error) => normalized(raw@, self.quantity_scale) == Err::<int, NormalizationFault>(error@),
            },
    {
        normalize_decimal(raw, self.quantity_scale)
    }

    /// Says whether `normalize_price` can be called: no value on the way is out of range.
    pub fn price_fits(&self, raw: &str) -> (fits: bool)
        ensures
            fits == normalization_fits(raw@, self.price_scale),
    {
        try_normalize(raw, self.price_scale).is_some()
    }

    /// Says whether `normalize_quantity` can be called: no value on the way is out of range.
    pub fn quantity_fits(&self, raw: &str) -> (fits: bool)
        ensures
            fits == normalization_fits(raw@, self.quantity_scale),
    {
        try_normalize(raw, self.quantity_scale).is_some()
    }
}

/// Normalises a decimal text to fixed point with the given number of decimal places.
pub fn normalize_decimal(raw: &str, scale: u32) -> (result: Result<i64, NormalizationError>)
    requires
        normalization_fits(raw@, scale),
    ensures
        is_normalized(result, raw@, scale),
        match result {
            Ok(value) => normalized(raw@, scale) == Ok::<int, NormalizationFault>(value as int),
            Err(error) => normalized(raw@, scale) == Err::<int, NormalizationFault>(error@),
        },
{
    try_normalize(raw, scale).unwrap()
}

} // verus!
