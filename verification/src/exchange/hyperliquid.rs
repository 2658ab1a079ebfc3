//! Hyperliquid driver: book messages of the feed, and the state of the driver.
use crate::exchange::{protocol_error, DriverError, DriverFault, ExchangeDriver, VenueCapabilities};
use crate::order_book::book::{BookUpdate, RawBookUpdate, UpdateModel};
use crate::order_book::PriceLevel;
use crate::text::{decimal, has_word, law_decimal_is_injective, mentions, push_decimal};
use crate::types::{normalization_fits, normalized, InstrumentSpec, Order, OrderId, Position};
use vstd::prelude::*;

verus! {

/// Single price level as it comes over the wire.
#[derive(Debug)]
pub struct HlLevel {
    /// Price as decimal text, such as `180.45`.
    pub px: String,
    /// Size as decimal text, such as `1.50`.
    pub sz: String,
    /// Number of orders at this level.
    pub n: u64,
}

/// Payload of a book message.
#[derive(Debug)]
pub struct HlL2BookData {
    pub coin: String,
    /// Bids first, then asks.
    pub levels: Vec<Vec<HlLevel>>,
    pub time: u64,
}

/// Message of the feed: the channel that it belongs to and its payload.
#[derive(Debug)]
pub struct HlWsMessage {
    pub channel: String,
    /// The payload read as book data, or why it cannot be read so.
    pub data: Result<HlL2BookData, String>,
}

/// A level in fixed point, or the text of the error that it causes.
pub open spec fn level_value(level: HlLevel, spec: InstrumentSpec) -> Result<PriceLevel, Seq<char>> {
    match normalized(level.px@, spec.price_scale) {
        Err(fault) => Err("price parse: "@ + fault.message()),
        Ok(price) => match normalized(level.sz@, spec.quantity_scale) {
            Err(fault) => Err("qty parse: "@ + fault.message()),
            Ok(quantity) => Ok(PriceLevel { price: price as i64, quantity: quantity as i64 }),
        },
    }
}

/// No value on the way to the level's fixed point is out of range. A size is looked at only
/// behind a good price.
pub open spec fn level_fits(level: HlLevel, spec: InstrumentSpec) -> bool {
    &&& normalization_fits(level.px@, spec.price_scale)
    &&& normalized(level.px@, spec.price_scale) is Ok ==> normalization_fits(
        level.sz@,
        spec.quantity_scale,
    )
}

/// All levels in fixed point, or the text of the first error.
pub open spec fn levels_value(levels: Seq<HlLevel>, spec: InstrumentSpec) -> Result<
    Seq<PriceLevel>,
    Seq<char>,
>
    decreases levels.len(),
{
    if levels.len() == 0 {
        Ok(Seq::empty())
    } else {
        match levels_value(levels.drop_last(), spec) {
            Err(text) => Err(text),
            Ok(values) => match level_value(levels.last(), spec) {
                Err(text) => Err(text),
                Ok(value) => Ok(values.push(value)),
            },
        }
    }
}

/// No value on the way to the levels' fixed point is out of range, up to the first error.
pub open spec fn levels_fit(levels: Seq<HlLevel>, spec: InstrumentSpec) -> bool
    decreases levels.len(),
{
    levels.len() > 0 ==> {
        &&& levels_fit(levels.drop_last(), spec)
        &&& levels_value(levels.drop_last(), spec) is Ok ==> level_fits(levels.last(), spec)
    }
}

/// The levels in fixed point, without those that cause an error.
pub open spec fn good_levels(levels: Seq<HlLevel>, spec: InstrumentSpec) -> Seq<PriceLevel>
    decreases levels.len(),
{
    if levels.len() == 0 {
        Seq::empty()
    } else {
        match level_value(levels.last(), spec) {
            Ok(value) => good_levels(levels.drop_last(), spec).push(value),
            Err(_) => good_levels(levels.drop_last(), spec),
        }
    }
}

/// No value on the way to any level's fixed point is out of range.
pub open spec fn all_levels_fit(levels: Seq<HlLevel>, spec: InstrumentSpec) -> bool {
    forall|i: int| 0 <= i < levels.len() ==> level_fits(#[trigger] levels[i], spec)
}

/// Where no level causes an error, leaving out the bad levels leaves out none.
pub proof fn law_good_levels_are_all_levels(levels: Seq<HlLevel>, spec: InstrumentSpec)
    ensures
        levels_value(levels, spec) matches Ok(values) ==> good_levels(levels, spec) == values,
        levels_value(levels, spec) is Ok ==> good_levels(levels, spec).len() == levels.len(),
    decreases levels.len(),
{
    if levels.len() > 0 {
        law_good_levels_are_all_levels(levels.drop_last(), spec);
    }
}

fn parse_level(level: &HlLevel, spec: &InstrumentSpec) -> (result: Result<PriceLevel, DriverError>)
    requires
        level_fits(*level, *spec),
    ensures
        match result {
            Ok(value) => level_value(*level, *spec) == Ok::<PriceLevel, Seq<char>>(value),
            Err(error) => level_value(*level, *spec) matches Err(text) && error@
                == DriverFault::Protocol(text),
        },
{
    let price = match spec.normalize_price(level.px.as_str()) {
        Ok(price) => price,
        Err(error) => {
            return Err(protocol_error("price parse: ", error.message().as_str()));
        },
    };
    let quantity = match spec.normalize_quantity(level.sz.as_str()) {
        Ok(quantity) => quantity,
        Err(error) => {
            return Err(protocol_error("qty parse: ", error.message().as_str()));
        },
    };
    Ok(PriceLevel { price, quantity })
}

fn can_parse_level(level: &HlLevel, spec: &InstrumentSpec) -> (fits: bool)
    ensures
        fits == level_fits(*level, *spec),
{
    if !spec.price_fits(level.px.as_str()) {
        return false;
    }
    match spec.normalize_price(level.px.as_str()) {
        Ok(_) => spec.quantity_fits(level.sz.as_str()),
        Err(_) => true,
    }
}

/// Brings levels to fixed point; the first error ends it.
pub fn parse_hl_levels(levels: &[HlLevel], spec: &InstrumentSpec) -> (result: Result<
    Vec<PriceLevel>,
    DriverError,
>)
    requires
        levels_fit(levels@, *spec),
    ensures
        match result {
            Ok(values) => levels_value(levels@, *spec) == Ok::<Seq<PriceLevel>, Seq<char>>(
                values@,
            ),
            Err(error) => levels_value(levels@, *spec) matches Err(text) && error@
                == DriverFault::Protocol(text),
        },
{
    let mut values: Vec<PriceLevel> = Vec::new();
    let n: usize = levels.len();
    let mut i: usize = 0;
    assert(levels@.take(n as int) =~= levels@);
    while i < n
        invariant
            i <= n == levels@.len(),
            levels_fit(levels@, *spec),
            levels_value(levels@.take(i as int), *spec) == Ok::<Seq<PriceLevel>, Seq<char>>(
                values@,
            ),
        decreases n - i,
    {
        proof {
            lemma_levels_fit_prefix(levels@, *spec, i + 1);
            lemma_levels_value_prefix(levels@, *spec, i + 1);
            assert(levels@.take(i + 1).drop_last() =~= levels@.take(i as int));
        }
        match parse_level(&levels[i], spec) {
            Ok(value) => {
                values.push(value);
            },
            Err(error) => {
                return Err(error);
            },
        }
        i += 1;
    }
    Ok(values)
}

proof fn lemma_levels_fit_prefix(levels: Seq<HlLevel>, spec: InstrumentSpec, n: int)
    requires
        levels_fit(levels, spec),
        0 <= n <= levels.len(),
    ensures
        levels_fit(levels.take(n), spec),
    decreases levels.len(),
{
    if n == levels.len() {
        assert(levels.take(n) =~= levels);
    } else {
        lemma_levels_fit_prefix(levels.drop_last(), spec, n);
        assert(levels.drop_last().take(n) =~= levels.take(n));
    }
}

proof fn lemma_levels_value_prefix(levels: Seq<HlLevel>, spec: InstrumentSpec, n: int)
    requires
        0 <= n <= levels.len(),
    ensures
        levels_value(levels.take(n), spec) matches Err(text) ==> levels_value(levels, spec) == Err::<
            Seq<PriceLevel>,
            Seq<char>,
        >(text),
    decreases levels.len(),
{
    if n == levels.len() {
        assert(levels.take(n) =~= levels);
    } else {
        lemma_levels_value_prefix(levels.drop_last(), spec, n);
        assert(levels.drop_last().take(n) =~= levels.take(n));
    }
}

/// Says whether `parse_hl_levels` can be called: no value on the way is out of range.
pub fn can_parse_hl_levels(levels: &[HlLevel], spec: &InstrumentSpec) -> (fits: bool)
    ensures
        fits == levels_fit(levels@, *spec),
{
    let n: usize = levels.len();
    let mut i: usize = 0;
    while i < n
        invariant
            i <= n == levels@.len(),
            levels_fit(levels@.take(i as int), *spec),
            levels_value(levels@.take(i as int), *spec) is Ok,
        decreases n - i,
    {
        assert(levels@.take(i + 1).drop_last() =~= levels@.take(i as int));
        if !can_parse_level(&levels[i], spec) {
            proof {
                if levels_fit(levels@, *spec) {
                    lemma_levels_fit_prefix(levels@, *spec, i + 1);
                }
            }
            return false;
        }
        if parse_level(&levels[i], spec).is_err() {
            proof {
                lemma_levels_fit_beyond_error(levels@, *spec, i + 1);
            }
            return true;
        }
        i += 1;
    }
    assert(levels@.take(n as int) =~= levels@);
    true
}

proof fn lemma_levels_fit_beyond_error(levels: Seq<HlLevel>, spec: InstrumentSpec, n: int)
    requires
        0 <= n <= levels.len(),
        levels_fit(levels.take(n), spec),
        levels_value(levels.take(n), spec) is Err,
    ensures
        levels_fit(levels, spec),
        levels_value(levels, spec) is Err,
    decreases levels.len(),
{
    if n == levels.len() {
        assert(levels.take(n) =~= levels);
    } else {
        assert(levels.drop_last().take(n) =~= levels.take(n));
        lemma_levels_fit_beyond_error(levels.drop_last(), spec, n);
    }
}

fn keep_good_levels(levels: &[HlLevel], spec: &InstrumentSpec) -> (values: Vec<PriceLevel>)
    requires
        all_levels_fit(levels@, *spec),
    ensures
        values@ == good_levels(levels@, *spec),
{
    let mut values: Vec<PriceLevel> = Vec::new();
    let n: usize = levels.len();
    let mut i: usize = 0;
    while i < n
        invariant
            i <= n == levels@.len(),
            all_levels_fit(levels@, *spec),
            values@ == good_levels(levels@.take(i as int), *spec),
        decreases n - i,
    {
        assert(levels@.take(i + 1).drop_last() =~= levels@.take(i as int));
        if let Ok(value) = parse_level(&levels[i], spec) {
            values.push(value);
        }
        i += 1;
    }
    assert(levels@.take(n as int) =~= levels@);
    values
}

fn can_keep_good_levels(levels: &[HlLevel], spec: &InstrumentSpec) -> (fits: bool)
    ensures
        fits == all_levels_fit(levels@, *spec),
{
    let n: usize = levels.len();
    let mut i: usize = 0;
    while i < n
        invariant
            i <= n == levels@.len(),
            forall|k: int| 0 <= k < i ==> level_fits(#[trigger] levels@[k], *spec),
        decreases n - i,
    {
        if !can_parse_level(&levels[i], spec) {
            return false;
        }
        i += 1;
    }
    true
}

/// What a book message brings for the book: nothing where it is of another channel, a full
/// update, or an error.
pub open spec fn l2_update(
    message: Result<HlWsMessage, String>,
    spec: InstrumentSpec,
) -> Result<Option<UpdateModel>, DriverFault> {
    match message {
        Err(text) => Err(DriverFault::Protocol("parse error: "@ + text@)),
        Ok(message) => if message.channel@ != "l2Book"@ {
            Ok(None)
        } else {
            match message.data {
                Err(text) => Err(DriverFault::Protocol("l2Book data parse error: "@ + text@)),
                Ok(data) => if data.levels@.len() < 2 {
                    Err(DriverFault::Protocol("l2Book missing bid/ask levels"@))
                } else {
                    match levels_value(data.levels@[0]@, spec) {
                        Err(text) => Err(DriverFault::Protocol(text)),
                        Ok(bids) => match levels_value(data.levels@[1]@, spec) {
                            Err(text) => Err(DriverFault::Protocol(text)),
                            Ok(asks) => Ok(Some(UpdateModel::Full { bids, asks })),
                        },
                    }
                },
            }
        },
    }
}

/// No value on the way to the update of a book message is out of range.
pub open spec fn l2_update_fits(
    message: Result<HlWsMessage, String>,
    spec: InstrumentSpec,
) -> bool {
    match message {
        Ok(message) => message.channel@ == "l2Book"@ ==> match message.data {
            Ok(data) => data.levels@.len() >= 2 ==> {
                &&& levels_fit(data.levels@[0]@, spec)
                &&& levels_value(data.levels@[0]@, spec) is Ok ==> levels_fit(
                    data.levels@[1]@,
                    spec,
                )
            },
            Err(_) => true,
        },
        Err(_) => true,
    }
}

/// The levels of a book message for `coin`, without those that cause an error; nothing where
/// the text is no such message. `message` is what `text` holds, if it can be read.
pub open spec fn book_levels(
    text: Seq<char>,
    message: Option<HlWsMessage>,
    coin: Seq<char>,
    spec: InstrumentSpec,
) -> Option<(Seq<PriceLevel>, Seq<PriceLevel>)> {
    match message {
        Some(message) => match message.data {
            Ok(data) => if mentions(text, "l2Book"@) && message.channel@ == "l2Book"@ && data.coin@
                == coin && data.levels@.len() >= 2 {
                Some(
                    (good_levels(data.levels@[0]@, spec), good_levels(data.levels@[1]@, spec)),
                )
            } else {
                None
            },
            Err(_) => None,
        },
        None => None,
    }
}

/// No value on the way to the levels of a book message is out of range.
pub open spec fn book_levels_fit(
    text: Seq<char>,
    message: Option<HlWsMessage>,
    coin: Seq<char>,
    spec: InstrumentSpec,
) -> bool {
    book_levels(text, message, coin, spec) is Some ==> {
        &&& all_levels_fit(message->0.data->Ok_0.levels@[0]@, spec)
        &&& all_levels_fit(message->0.data->Ok_0.levels@[1]@, spec)
    }
}

/// Says whether a text can hold a book message at all, before it is read as one.
pub fn may_hold_book(text: &str) -> (yes: bool)
    ensures
        yes == mentions(text@, "l2Book"@),
{
    has_word(text, "l2Book")
}

/// The bids and asks in fixed point, where `text` holds a book message for `coin`.
/// `message` is what `text` holds, if it can be read.
pub fn parse_l2_message(
    text: &str,
    message: &Option<HlWsMessage>,
    coin: &str,
    spec: &InstrumentSpec,
) -> (levels: Option<(Vec<PriceLevel>, Vec<PriceLevel>)>)
    requires
        book_levels_fit(text@, *message, coin@, *spec),
    ensures
        match levels {
            Some(sides) => book_levels(text@, *message, coin@, *spec) == Some((sides.0@, sides.1@)),
            None => book_levels(text@, *message, coin@, *spec) is None,
        },
{
    match book_data(text, message, coin) {
        Some(data) => Some(
            (
                keep_good_levels(data.levels[0].as_slice(), spec),
                keep_good_levels(data.levels[1].as_slice(), spec),
            ),
        ),
        None => None,
    }
}

/// Says whether `parse_l2_message` can be called: no value on the way is out of range.
pub fn can_parse_l2_message(
    text: &str,
    message: &Option<HlWsMessage>,
    coin: &str,
    spec: &InstrumentSpec,
) -> (fits: bool)
    ensures
        fits == book_levels_fit(text@, *message, coin@, *spec),
{
    match book_data(text, message, coin) {
        Some(data) => can_keep_good_levels(data.levels[0].as_slice(), spec)
            && can_keep_good_levels(data.levels[1].as_slice(), spec),
        None => true,
    }
}

fn book_data<'a>(text: &str, message: &'a Option<HlWsMessage>, coin: &str) -> (data: Option<
    &'a HlL2BookData,
>)
    ensures
        match data {
            Some(found) => message matches Some(m) && m.data == Ok::<HlL2BookData, String>(*found)
                && mentions(text@, "l2Book"@) && m.channel@ == "l2Book"@ && found.coin@ == coin@
                && found.levels@.len() >= 2,
            None => forall|spec: InstrumentSpec|
                #[trigger] book_levels(text@, *message, coin@, spec) is None,
        },
{
    if !may_hold_book(text) {
        return None;
    }
    match message {
        Some(m) => {
            if m.channel != "l2Book".to_string() {
                return None;
            }
            match &m.data {
                Ok(data) => {
                    if data.coin != coin.to_string() || data.levels.len() < 2 {
                        return None;
                    }
                    Some(data)
                },
                Err(_) => None,
            }
        },
        None => None,
    }
}

/// Driver state: whether it is connected, and the last nonce that it has used.
pub struct HlDriver {
    instrument: InstrumentSpec,
    connected: bool,
    last_nonce: Option<u128>,
}

/// The state of an `HlDriver` as a mathematical value.
#[verifier::ext_equal]
pub struct HlModel {
    pub instrument: InstrumentSpec,
    pub connected: bool,
    pub last_nonce: Option<u128>,
}

impl View for HlDriver {
    type V = HlModel;

    closed spec fn view(&self) -> HlModel {
        HlModel {
            instrument: self.instrument,
            connected: self.connected,
            last_nonce: self.last_nonce,
        }
    }
}

/// The nonce at a time in milliseconds: the time itself, or the number after the last nonce
/// where the time has not passed it.
pub open spec fn nonce_at(last: Option<u128>, now_ms: u128) -> u128 {
    match last {
        Some(nonce) => if now_ms > nonce {
            now_ms
        } else {
            (nonce + 1) as u128
        },
        None => now_ms,
    }
}

/// Nonces increase, whatever the clock says, as long as there is one left.
pub proof fn law_nonces_increase(last: u128, now_ms: u128)
    requires
        last < u128::MAX,
    ensures
        nonce_at(Some(last), now_ms) > last,
{
}

/// The identifier of the order with this nonce.
pub open spec fn hl_order_id(nonce: u128) -> Seq<char> {
    "hl-"@ + decimal(nonce as nat)
}

/// Orders with different nonces have different identifiers.
pub proof fn law_hl_order_ids_differ(a: u128, b: u128)
    requires
        a != b,
    ensures
        hl_order_id(a) != hl_order_id(b),
{
    let prefix = "hl-"@;
    if hl_order_id(a) == hl_order_id(b) {
        assert(hl_order_id(a).skip(prefix.len() as int) =~= decimal(a as nat));
        assert(hl_order_id(b).skip(prefix.len() as int) =~= decimal(b as nat));
        law_decimal_is_injective(a as nat, b as nat);
    }
}

/// The nonces of orders that are placed at these times, one after the other.
pub open spec fn nonces(last: Option<u128>, times: Seq<u128>) -> Seq<u128>
    decreases times.len(),
{
    if times.len() == 0 {
        Seq::empty()
    } else {
        let front = nonces(last, times.drop_last());
        let before = if front.len() == 0 {
            last
        } else {
            Some(front.last())
        };
        front.push(nonce_at(before, times.last()))
    }
}

/// An order has a greater nonce and another identifier than any order before it, whatever the
/// clock says, as long as there was a nonce left for each.
pub proof fn law_orders_of_a_session_differ(
    last: Option<u128>,
    times: Seq<u128>,
    i: int,
    j: int,
)
    requires
        0 <= i < j < times.len(),
        forall|k: int| 0 <= k < j ==> #[trigger] nonces(last, times)[k] < u128::MAX,
    ensures
        nonces(last, times).len() == times.len(),
        nonces(last, times)[i] < nonces(last, times)[j],
        hl_order_id(nonces(last, times)[i]) != hl_order_id(nonces(last, times)[j]),
{
    lemma_nonces_increase(last, times, i, j);
    law_hl_order_ids_differ(nonces(last, times)[i], nonces(last, times)[j]);
}

proof fn lemma_nonces_len(last: Option<u128>, times: Seq<u128>)
    ensures
        nonces(last, times).len() == times.len(),
    decreases times.len(),
{
    if times.len() > 0 {
        lemma_nonces_len(last, times.drop_last());
    }
}

proof fn lemma_nonces_increase(last: Option<u128>, times: Seq<u128>, i: int, j: int)
    requires
        0 <= i < j < times.len(),
        forall|k: int| 0 <= k < j ==> #[trigger] nonces(last, times)[k] < u128::MAX,
    ensures
        nonces(last, times).len() == times.len(),
        nonces(last, times)[i] < nonces(last, times)[j],
    decreases times.len(),
{
    let front = nonces(last, times.drop_last());
    lemma_nonces_len(last, times);
    lemma_nonces_len(last, times.drop_last());
    assert(nonces(last, times)[i] == front[i]);
    assert(nonces(last, times)[j - 1] < u128::MAX);
    assert forall|k: int| 0 <= k < j && k < front.len() implies #[trigger] front[k] < u128::MAX by {
        assert(nonces(last, times)[k] == front[k]);
    }
    if j < times.len() - 1 {
        lemma_nonces_increase(last, times.drop_last(), i, j);
    } else if i < times.len() - 2 {
        lemma_nonces_increase(last, times.drop_last(), i, times.len() - 2);
    }
}

/// Limit orders and a streamed book, but no reference price.
pub open spec fn hl_capabilities() -> VenueCapabilities {
    VenueCapabilities {
        can_place_limit_orders: true,
        can_stream_order_book: true,
        provides_reference_price: false,
    }
}

impl HlDriver {
    pub fn new(instrument: InstrumentSpec) -> (driver: Self)
        ensures
            driver@ == (HlModel { instrument, connected: false, last_nonce: None }),
    {
        HlDriver { instrument, connected: false, last_nonce: None }
    }

    /// Turns a message of the feed, or why it could not be read, into the update to forward to
    /// the order book task under this sequence number. A message of another channel brings
    /// none. The levels are not checked here; that is up to the book.
    pub fn handle_l2_message(&self, message: &Result<HlWsMessage, String>, seq: u64) -> (result:
        Result<Option<RawBookUpdate>, DriverError>)
        requires
            l2_update_fits(*message, self@.instrument),
        ensures
            match result {
                Ok(Some(raw)) => l2_update(*message, self@.instrument) == Ok::<
                    Option<UpdateModel>,
                    DriverFault,
                >(Some(raw.update@)) && raw.seq == seq,
                Ok(None) => l2_update(*message, self@.instrument) == Ok::<
                    Option<UpdateModel>,
                    DriverFault,
                >(None),
                Err(error) => l2_update(*message, self@.instrument) == Err::<
                    Option<UpdateModel>,
                    DriverFault,
                >(error@),
            },
    {
        let message = match message {
            Ok(message) => message,
            Err(text) => {
                return Err(protocol_error("parse error: ", text.as_str()));
            },
        };
        if message.channel != "l2Book".to_string() {
            return Ok(None);
        }
        let data = match &message.data {
            Ok(data) => data,
            Err(text) => {
                return Err(protocol_error("l2Book data parse error: ", text.as_str()));
            },
        };
        if data.levels.len() < 2 {
            return Err(DriverError::Protocol("l2Book missing bid/ask levels".to_string()));
        }
        let bids = match parse_hl_levels(data.levels[0].as_slice(), &self.instrument) {
            Ok(bids) => bids,
            Err(error) => {
                return Err(error);
            },
        };
        let asks = match parse_hl_levels(data.levels[1].as_slice(), &self.instrument) {
            Ok(asks) => asks,
            Err(error) => {
                return Err(error);
            },
        };
        Ok(Some(RawBookUpdate { update: BookUpdate::Full { bids, asks }, seq }))
    }

    /// Says whether `handle_l2_message` can be called: no value on the way is out of range.
    pub fn can_handle_l2_message(&self, message: &Result<HlWsMessage, String>) -> (fits: bool)
        ensures
            fits == l2_update_fits(*message, self@.instrument),
    {
        let message = match message {
            Ok(message) => message,
            Err(_) => {
                return true;
            },
        };
        if message.channel != "l2Book".to_string() {
            return true;
        }
        match &message.data {
            Ok(data) => {
                if data.levels.len() < 2 {
                    return true;
                }
                if !can_parse_hl_levels(data.levels[0].as_slice(), &self.instrument) {
                    return false;
                }
                match parse_hl_levels(data.levels[0].as_slice(), &self.instrument) {
                    Ok(_) => can_parse_hl_levels(data.levels[1].as_slice(), &self.instrument),
                    Err(_) => true,
                }
            },
            Err(_) => true,
        }
    }

    /// The answer to a book message whose update was sent on to the order book task, by
    /// whether the sending succeeded or why it did not.
    pub fn forwarded(sent: Result<(), String>) -> (result: Result<bool, DriverError>)
        ensures
            match sent {
                Ok(_) => result == Ok::<bool, DriverError>(true),
                Err(text) => result matches Err(error) && error@ == DriverFault::Protocol(
                    "order_book task unreachable: "@ + text@,
                ),
            },
    {
        match sent {
            Ok(_) => Ok(true),
            Err(text) => Err(protocol_error("order_book task unreachable: ", text.as_str())),
        }
    }
}

impl ExchangeDriver for HlDriver {
    open spec fn is_connected(&self) -> bool {
        self@.connected
    }

    open spec fn offers(&self) -> VenueCapabilities {
        hl_capabilities()
    }

    open spec fn has_next_id(&self) -> bool {
        true
    }

    open spec fn has_order_id(&self) -> bool {
        self@.last_nonce != Some(u128::MAX)
    }

    fn can_request(&self) -> (yes: bool) {
        true
    }

    fn can_order(&self) -> (yes: bool) {
        match self.last_nonce {
            Some(last) => last < u128::MAX,
            None => true,
        }
    }

    /// Connects. A reader has to be started unless the driver is connected already.
    fn connect(&mut self) -> (result: Result<bool, DriverError>)
        ensures
            result == Ok::<bool, DriverError>(!old(self)@.connected),
            final(self)@ == (HlModel { connected: true, ..old(self)@ }),
    {
        if self.connected {
            return Ok(false);
        }
        self.connected = true;
        Ok(true)
    }

    fn disconnect(&mut self) -> (result: Result<(), DriverError>)
        ensures
            final(self)@ == (HlModel { connected: false, ..old(self)@ }),
    {
        self.connected = false;
        Ok(())
    }

    /// The reader subscribes by itself when it connects, so there is nothing more to do.
    fn subscribe_market_data(&mut self) -> (result: Result<(), DriverError>)
        ensures
            final(self)@ == old(self)@,
    {
        if !self.connected {
            return Err(DriverError::NotConnected);
        }
        Ok(())
    }

    /// Places an order of either type under a nonce of its own.
    fn place_order(&mut self, order: Order, now_ms: u128) -> (result: Result<OrderId, DriverError>)
        ensures
            result matches Ok(id) ==> {
                let nonce = nonce_at(old(self)@.last_nonce, now_ms);
                &&& id@ == hl_order_id(nonce)
                &&& old(self)@.last_nonce matches Some(last) ==> nonce > last
                &&& final(self)@ == (HlModel { last_nonce: Some(nonce), ..old(self)@ })
            },
            result is Err ==> final(self)@ == old(self)@,
    {
        if !self.connected {
            return Err(DriverError::NotConnected);
        }
        let nonce: u128 = match self.last_nonce {
            Some(last) => if now_ms > last {
                now_ms
            } else {
                last + 1
            },
            None => now_ms,
        };
        self.last_nonce = Some(nonce);
        let mut order_id = "hl-".to_string();
        push_decimal(&mut order_id, nonce);
        Ok(order_id)
    }

    fn cancel_order(&mut self, id: &OrderId) -> (result: Result<(), DriverError>)
        ensures
            final(self)@ == old(self)@,
    {
        if !self.connected {
            return Err(DriverError::NotConnected);
        }
        Ok(())
    }

    fn get_positions(&self) -> (result: Result<Vec<Position>, DriverError>)
        ensures
            result matches Ok(positions) ==> positions@.len() == 0,
    {
        if !self.connected {
            return Err(DriverError::NotConnected);
        }
        Ok(Vec::new())
    }

    fn capabilities(&self) -> (capabilities: VenueCapabilities) {
        VenueCapabilities {
            can_place_limit_orders: true,
            can_stream_order_book: true,
            provides_reference_price: false,
        }
    }

    fn venue_name(&self) -> (name: &'static str)
        ensures
            name@ == "Hyperliquid"@,
    {
        "Hyperliquid"
    }
}

} // verus!
