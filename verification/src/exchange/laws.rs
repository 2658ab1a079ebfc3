//! What holds of the drivers: which orders are taken, how they are named, and what messages of
//! the feed bring.
use crate::exchange::hyperliquid::{
    all_levels_fit, book_levels, book_levels_fit, good_levels, hl_capabilities, hl_order_id, l2_update,
    l2_update_fits, level_fits, level_value, levels_fit, levels_value, nonce_at, HlDriver, HlLevel,
    HlWsMessage,
};
use crate::exchange::ibkr::{ibkr_capabilities, ibkr_order_id, IbkrDriver};
use crate::exchange::{refusal, DriverError, DriverFault, ExchangeDriver, VenueCapabilities};
use crate::order_book::{PriceLevel, UpdateModel};
use crate::text::{decimal, digits_value};
use crate::text_laws::law_decimal_is_canonical;
use crate::types::{normalization_fits, normalized, InstrumentSpec, Order};
use vstd::prelude::*;

verus! {

/// A connected venue takes every market order, and every limit order if it can place them,
/// whatever the instrument, side, quantity, price and time in force. It refuses no other order
/// than a limit order that it cannot place; without a connection every order is refused.
pub proof fn law_which_orders_are_taken(
    connected: bool,
    capabilities: VenueCapabilities,
    order: Order,
)
    ensures
        connected && order.order_type is Market ==> refusal(connected, capabilities, order) is None,
        connected && capabilities.can_place_limit_orders ==> refusal(
            connected,
            capabilities,
            order,
        ) is None,
        connected && order.order_type is Limit && !capabilities.can_place_limit_orders ==> refusal(
            connected,
            capabilities,
            order,
        ) == Some(DriverFault::NotSupported),
        !connected ==> refusal(connected, capabilities, order) == Some(DriverFault::NotConnected),
{
}

/// Hyperliquid takes limit orders and streams its book; IBKR has the reference price only.
pub proof fn law_what_the_venues_offer()
    ensures
        hl_capabilities().can_place_limit_orders,
        hl_capabilities().can_stream_order_book,
        !hl_capabilities().provides_reference_price,
        !ibkr_capabilities().can_place_limit_orders,
        !ibkr_capabilities().can_stream_order_book,
        ibkr_capabilities().provides_reference_price,
{
}

/// What the drivers' states mean: whether they are connected, what they offer, and whether
/// there is a number left.
pub proof fn law_driver_states(hl: HlDriver, ibkr: IbkrDriver)
    ensures
        hl.is_connected() <==> hl@.connected,
        hl.offers() == hl_capabilities(),
        hl.has_next_id(),
        hl.has_order_id() <==> (hl@.last_nonce matches Some(last) ==> last < u128::MAX),
        ibkr.is_connected() <==> ibkr@.connected,
        ibkr.offers() == ibkr_capabilities(),
        ibkr.has_next_id() <==> ibkr@.next_req_id < u32::MAX,
        ibkr.has_order_id() <==> ibkr@.next_req_id < u32::MAX,
{
}

/// The nonce is the smallest number that is not before the time and beyond the last nonce.
pub proof fn law_nonce_is_the_next_free_number(last: Option<u128>, now_ms: u128, other: u128)
    requires
        last matches Some(nonce) ==> nonce < u128::MAX,
    ensures
        nonce_at(last, now_ms) >= now_ms,
        last matches Some(nonce) ==> nonce_at(last, now_ms) > nonce,
        other >= now_ms && (last matches Some(nonce) ==> other > nonce) ==> other >= nonce_at(
            last,
            now_ms,
        ),
{
}

/// An order identifier is the prefix of its venue and, in digits, its number.
pub proof fn law_order_id_holds_its_number(req_id: u32, nonce: u128)
    ensures
        ibkr_order_id(req_id).take("ibkr-order-"@.len() as int) == "ibkr-order-"@,
        ibkr_order_id(req_id).skip("ibkr-order-"@.len() as int) == decimal(req_id as nat),
        digits_value(ibkr_order_id(req_id).skip("ibkr-order-"@.len() as int)) == req_id,
        hl_order_id(nonce).take("hl-"@.len() as int) == "hl-"@,
        hl_order_id(nonce).skip("hl-"@.len() as int) == decimal(nonce as nat),
        digits_value(hl_order_id(nonce).skip("hl-"@.len() as int)) == nonce,
{
    law_decimal_is_canonical(req_id as nat);
    law_decimal_is_canonical(nonce as nat);
    let n = "ibkr-order-"@.len() as int;
    let m = "hl-"@.len() as int;
    assert(ibkr_order_id(req_id).take(n) =~= "ibkr-order-"@);
    assert(ibkr_order_id(req_id).skip(n) =~= decimal(req_id as nat));
    assert(hl_order_id(nonce).take(m) =~= "hl-"@);
    assert(hl_order_id(nonce).skip(m) =~= decimal(nonce as nat));
}

/// An error says what its fault does, and its sentence holds what the error holds.
pub proof fn law_driver_errors_tell(text: String, ms: u64)
    ensures
        DriverError::NotConnected@ == DriverFault::NotConnected,
        DriverError::NotSupported@ == DriverFault::NotSupported,
        (DriverError::OrderRejected { reason: text })@ == (DriverFault::OrderRejected {
            reason: text@,
        }),
        (DriverError::OrderNotFound { id: text })@ == (DriverFault::OrderNotFound { id: text@ }),
        DriverError::Connection(text)@ == DriverFault::Connection(text@),
        DriverError::Protocol(text)@ == DriverFault::Protocol(text@),
        DriverError::Serialization(text)@ == DriverFault::Serialization(text@),
        (DriverError::Timeout { ms })@ == (DriverFault::Timeout { ms }),
        DriverFault::NotConnected.message() == "Not connected"@,
        DriverFault::NotSupported.message() == "Not supported by this venue"@,
        (DriverFault::OrderRejected { reason: text@ }).message() == "Order rejected by venue: "@
            + text@,
        (DriverFault::OrderNotFound { id: text@ }).message() == "Order not found: "@ + text@,
        DriverFault::Connection(text@).message() == "Connection error: "@ + text@,
        DriverFault::Protocol(text@).message() == "Protocol error: "@ + text@,
        DriverFault::Serialization(text@).message() == "Serialization error: "@ + text@,
        (DriverFault::Timeout { ms }).message() == "Timeout after "@ + decimal(ms as nat) + "ms"@,
{
}

// Levels of a message

/// A level is its price and its size, each normalised with its own scale. A bad price is
/// reported before a bad size.
pub proof fn law_level_is_price_and_size(level: HlLevel, spec: InstrumentSpec)
    ensures
        ({
            let price = normalized(level.px@, spec.price_scale);
            let size = normalized(level.sz@, spec.quantity_scale);
            &&& price is Ok && size is Ok ==> level_value(level, spec) == Ok::<
                PriceLevel,
                Seq<char>,
            >(PriceLevel { price: price->Ok_0 as i64, quantity: size->Ok_0 as i64 })
            &&& price is Ok && size is Err ==> level_value(level, spec) == Err::<
                PriceLevel,
                Seq<char>,
            >("qty parse: "@ + size->Err_0.message())
            &&& price is Err ==> level_value(level, spec) == Err::<PriceLevel, Seq<char>>(
                "price parse: "@ + price->Err_0.message(),
            )
        }),
{
}

/// Levels without a bad one are read one for one.
pub proof fn law_good_levels_are_read_in_order(levels: Seq<HlLevel>, spec: InstrumentSpec)
    requires
        forall|i: int|
            0 <= i < levels.len() ==> normalized(
                (#[trigger] levels[i]).px@,
                spec.price_scale,
            ) is Ok && normalized(levels[i].sz@, spec.quantity_scale) is Ok,
    ensures
        levels_value(levels, spec) is Ok,
        levels_value(levels, spec)->Ok_0.len() == levels.len(),
        forall|i: int|
            0 <= i < levels.len() ==> #[trigger] levels_value(levels, spec)->Ok_0[i] == (PriceLevel {
                price: normalized(levels[i].px@, spec.price_scale)->Ok_0 as i64,
                quantity: normalized(levels[i].sz@, spec.quantity_scale)->Ok_0 as i64,
            }),
    decreases levels.len(),
{
    if levels.len() > 0 {
        let front = levels.drop_last();
        assert forall|i: int| 0 <= i < front.len() implies normalized(
            (#[trigger] front[i]).px@,
            spec.price_scale,
        ) is Ok && normalized(front[i].sz@, spec.quantity_scale) is Ok by {
            assert(front[i] == levels[i]);
        }
        law_good_levels_are_read_in_order(front, spec);
        let n = levels.len() - 1;
        assert(levels[n] == levels.last());
        assert(normalized(levels[n].px@, spec.price_scale) is Ok);
        assert forall|i: int| 0 <= i < levels.len() implies #[trigger] levels_value(
            levels,
            spec,
        )->Ok_0[i] == (PriceLevel {
            price: normalized(levels[i].px@, spec.price_scale)->Ok_0 as i64,
            quantity: normalized(levels[i].sz@, spec.quantity_scale)->Ok_0 as i64,
        }) by {
            if i < n {
                assert(levels_value(front, spec)->Ok_0[i] == levels_value(levels, spec)->Ok_0[i]);
                assert(front[i] == levels[i]);
            }
        }
    }
}

/// The first bad level decides the error, whatever comes behind it.
pub proof fn law_first_bad_level_is_reported(
    levels: Seq<HlLevel>,
    spec: InstrumentSpec,
    bad: int,
)
    requires
        0 <= bad < levels.len(),
        level_value(levels[bad], spec) is Err,
        forall|i: int| 0 <= i < bad ==> level_value(#[trigger] levels[i], spec) is Ok,
    ensures
        levels_value(levels, spec) == Err::<Seq<PriceLevel>, Seq<char>>(
            level_value(levels[bad], spec)->Err_0,
        ),
    decreases levels.len(),
{
    let front = levels.drop_last();
    if bad < levels.len() - 1 {
        assert(front[bad] == levels[bad]);
        assert forall|i: int| 0 <= i < bad implies level_value(#[trigger] front[i], spec) is Ok by {
            assert(front[i] == levels[i]);
        }
        law_first_bad_level_is_reported(front, spec, bad);
    } else {
        assert forall|i: int| 0 <= i < front.len() implies normalized(
            (#[trigger] front[i]).px@,
            spec.price_scale,
        ) is Ok && normalized(front[i].sz@, spec.quantity_scale) is Ok by {
            assert(front[i] == levels[i]);
            assert(level_value(levels[i], spec) is Ok);
        }
        law_good_levels_are_read_in_order(front, spec);
    }
}

/// The feed keeps the levels whose price and size can both be read, in their order.
pub proof fn law_feed_keeps_readable_levels(levels: Seq<HlLevel>, spec: InstrumentSpec)
    ensures
        good_levels(levels, spec) == levels.filter(
            |level: HlLevel|
                normalized(level.px@, spec.price_scale) is Ok && normalized(
                    level.sz@,
                    spec.quantity_scale,
                ) is Ok,
        ).map_values(
            |level: HlLevel|
                PriceLevel {
                    price: normalized(level.px@, spec.price_scale)->Ok_0 as i64,
                    quantity: normalized(level.sz@, spec.quantity_scale)->Ok_0 as i64,
                },
        ),
    decreases levels.len(),
{
    let readable = |level: HlLevel|
        normalized(level.px@, spec.price_scale) is Ok && normalized(
            level.sz@,
            spec.quantity_scale,
        ) is Ok;
    let value = |level: HlLevel|
        PriceLevel {
            price: normalized(level.px@, spec.price_scale)->Ok_0 as i64,
            quantity: normalized(level.sz@, spec.quantity_scale)->Ok_0 as i64,
        };
    reveal(Seq::filter);
    if levels.len() > 0 {
        law_feed_keeps_readable_levels(levels.drop_last(), spec);
        if readable(levels.last()) {
            let front = levels.drop_last().filter(readable);
            assert(front.push(levels.last()).map_values(value) =~= front.map_values(value).push(
                value(levels.last()),
            ));
        }
    } else {
        assert(good_levels(levels, spec) =~= levels.filter(readable).map_values(value));
    }
}

/// A level is within range exactly when its price is and, behind a price that can be read, its
/// size is.
pub proof fn law_level_fits(level: HlLevel, spec: InstrumentSpec)
    ensures
        level_fits(level, spec) <==> {
            &&& normalization_fits(level.px@, spec.price_scale)
            &&& normalized(level.px@, spec.price_scale) is Err || normalization_fits(
                level.sz@,
                spec.quantity_scale,
            )
        },
{
}

/// Levels are read without an error exactly when none of them is bad.
pub proof fn law_levels_are_read_without_bad_ones(levels: Seq<HlLevel>, spec: InstrumentSpec)
    ensures
        levels_value(levels, spec) is Ok <==> forall|k: int|
            0 <= k < levels.len() ==> level_value(#[trigger] levels[k], spec) is Ok,
    decreases levels.len(),
{
    if levels.len() > 0 {
        let front = levels.drop_last();
        law_levels_are_read_without_bad_ones(front, spec);
        assert(levels[levels.len() - 1] == levels.last());
        if levels_value(front, spec) is Ok {
            assert forall|k: int| 0 <= k < levels.len() - 1 implies level_value(
                #[trigger] levels[k],
                spec,
            ) is Ok by {
                assert(front[k] == levels[k]);
            }
        } else {
            let k = choose|k: int|
                0 <= k < front.len() && !(level_value(#[trigger] front[k], spec) is Ok);
            assert(levels[k] == front[k]);
        }
    }
}

/// Levels are out of range where one is that has no bad level before it.
pub proof fn law_levels_do_not_fit(levels: Seq<HlLevel>, spec: InstrumentSpec, at: int)
    requires
        0 <= at < levels.len(),
        forall|k: int| 0 <= k < at ==> level_value(#[trigger] levels[k], spec) is Ok,
        !level_fits(levels[at], spec),
    ensures
        !levels_fit(levels, spec),
    decreases levels.len(),
{
    let front = levels.drop_last();
    if at < levels.len() - 1 {
        assert(front[at] == levels[at]);
        assert forall|k: int| 0 <= k < at implies level_value(#[trigger] front[k], spec) is Ok by {
            assert(front[k] == levels[k]);
        }
        law_levels_do_not_fit(front, spec, at);
    } else {
        law_levels_are_read_without_bad_ones(front, spec);
        assert forall|k: int| 0 <= k < front.len() implies level_value(
            #[trigger] front[k],
            spec,
        ) is Ok by {
            assert(front[k] == levels[k]);
        }
    }
}

/// Levels are within range where each one is up to the first bad one, or to the end.
pub proof fn law_levels_fit_up_to_first_bad(levels: Seq<HlLevel>, spec: InstrumentSpec, end: int)
    requires
        0 <= end <= levels.len(),
        end < levels.len() ==> level_value(levels[end], spec) is Err,
        forall|k: int| 0 <= k < levels.len() && k <= end ==> level_fits(#[trigger] levels[k], spec),
    ensures
        levels_fit(levels, spec),
    decreases levels.len(),
{
    if levels.len() > 0 {
        let front = levels.drop_last();
        let n = levels.len() - 1;
        let shorter = if end <= n {
            end
        } else {
            n
        };
        assert forall|k: int| 0 <= k < front.len() && k <= shorter implies level_fits(
            #[trigger] front[k],
            spec,
        ) by {
            assert(front[k] == levels[k]);
        }
        if shorter < n {
            assert(front[end] == levels[end]);
        }
        law_levels_fit_up_to_first_bad(front, spec, shorter);
        if end < n {
            law_levels_are_read_without_bad_ones(front, spec);
            assert(!(level_value(front[end], spec) is Ok));
        } else {
            assert(level_fits(levels[n], spec));
        }
    }
}

/// Levels of the feed are within range exactly when each one is.
pub proof fn law_feed_levels_fit(levels: Seq<HlLevel>, spec: InstrumentSpec)
    ensures
        all_levels_fit(levels, spec) <==> forall|i: int|
            0 <= i < levels.len() ==> level_fits(#[trigger] levels[i], spec),
{
}

// Messages

/// What a message brings the driver. One that cannot be read is an error, one of another
/// channel brings nothing, and a book message brings all levels of its first side as bids and
/// all of its second as asks, unless its payload cannot be read, it has fewer than two sides,
/// or one of the levels is bad, the bids before the asks.
pub proof fn law_what_a_message_brings(
    message: HlWsMessage,
    text: String,
    spec: InstrumentSpec,
)
    ensures
        l2_update(Err(text), spec) == Err::<Option<UpdateModel>, DriverFault>(
            DriverFault::Protocol("parse error: "@ + text@),
        ),
        message.channel@ != "l2Book"@ ==> l2_update(Ok(message), spec) == Ok::<
            Option<UpdateModel>,
            DriverFault,
        >(None),
        message.channel@ == "l2Book"@ ==> match message.data {
            Err(text) => l2_update(Ok(message), spec) == Err::<Option<UpdateModel>, DriverFault>(
                DriverFault::Protocol("l2Book data parse error: "@ + text@),
            ),
            Ok(data) => {
                let bids = levels_value(data.levels@[0]@, spec);
                let asks = levels_value(data.levels@[1]@, spec);
                &&& data.levels@.len() < 2 ==> l2_update(Ok(message), spec) == Err::<
                    Option<UpdateModel>,
                    DriverFault,
                >(DriverFault::Protocol("l2Book missing bid/ask levels"@))
                &&& data.levels@.len() >= 2 && bids is Err ==> l2_update(Ok(message), spec)
                    == Err::<Option<UpdateModel>, DriverFault>(DriverFault::Protocol(bids->Err_0))
                &&& data.levels@.len() >= 2 && bids is Ok && asks is Err ==> l2_update(
                    Ok(message),
                    spec,
                ) == Err::<Option<UpdateModel>, DriverFault>(DriverFault::Protocol(asks->Err_0))
                &&& data.levels@.len() >= 2 && bids is Ok && asks is Ok ==> l2_update(
                    Ok(message),
                    spec,
                ) == Ok::<Option<UpdateModel>, DriverFault>(
                    Some(UpdateModel::Full { bids: bids->Ok_0, asks: asks->Ok_0 }),
                )
            },
        },
{
}

/// A message is within range for the driver exactly when it is no book message with two sides,
/// or its bids are and, behind bids that can all be read, its asks are.
pub proof fn law_message_fits(message: HlWsMessage, text: String, spec: InstrumentSpec)
    ensures
        l2_update_fits(Err(text), spec),
        l2_update_fits(Ok(message), spec) <==> {
            ||| message.channel@ != "l2Book"@
            ||| message.data is Err
            ||| message.data->Ok_0.levels@.len() < 2
            ||| {
                &&& levels_fit(message.data->Ok_0.levels@[0]@, spec)
                &&& levels_value(message.data->Ok_0.levels@[0]@, spec) is Err || levels_fit(
                    message.data->Ok_0.levels@[1]@,
                    spec,
                )
            }
        },
{
}

/// What a text brings the reader: the readable levels of both sides, exactly where the text has
/// the name of the channel in it, holds a message of that channel with a payload that can be
/// read, and this is for the coin and has two sides.
pub proof fn law_what_a_text_brings(
    text: Seq<char>,
    message: HlWsMessage,
    coin: Seq<char>,
    spec: InstrumentSpec,
)
    ensures
        book_levels(text, None, coin, spec) is None,
        ({
            let named = exists|i: int|
                0 <= i <= text.len() - "l2Book"@.len() && #[trigger] text.subrange(
                    i,
                    i + "l2Book"@.len(),
                ) == "l2Book"@;
            let data = message.data->Ok_0;
            let is_book = named && message.channel@ == "l2Book"@ && message.data is Ok
                && data.coin@ == coin && data.levels@.len() >= 2;
            &&& is_book ==> book_levels(text, Some(message), coin, spec) == Some(
                (good_levels(data.levels@[0]@, spec), good_levels(data.levels@[1]@, spec)),
            )
            &&& !is_book ==> book_levels(text, Some(message), coin, spec) is None
            &&& book_levels_fit(text, None, coin, spec)
            &&& book_levels_fit(text, Some(message), coin, spec) <==> (is_book ==> all_levels_fit(
                data.levels@[0]@,
                spec,
            ) && all_levels_fit(data.levels@[1]@, spec))
        }),
{
}

} // verus!
