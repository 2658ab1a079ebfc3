//! What the feed reader does, command by command.
use crate::exchange::hyperliquid::{book_levels_fit, HlLevel, HlWsMessage};
use crate::exchange::laws::{law_feed_keeps_readable_levels, law_what_a_text_brings};
use crate::exchange::reader::{
    backoff_ms, json_string, subscription, CommandModel, Frame, LinkState, ReaderCommand, ReaderEvent,
    ReaderInput, ReaderModel, ReaderPhase,
};
use crate::exchange::ConnectionState;
use crate::order_book::{PriceLevel, RawBookUpdate, UpdateModel};
use crate::types::{normalized, InstrumentSpec};
use std::time::Instant;
use vstd::arithmetic::power::pow;
use vstd::prelude::*;

verus! {

/// A text frame that holds a book message for the reader's coin is forwarded with both sides of
/// the message, each with its readable levels in their order, under the next number.
pub proof fn law_book_message_is_forwarded(
    reader: ReaderModel,
    text: String,
    message: HlWsMessage,
    at: int,
)
    requires
        reader.phase == ReaderPhase::Streaming,
        reader.seq < u64::MAX,
        0 <= at <= text@.len() - "l2Book"@.len(),
        text@.subrange(at, at + "l2Book"@.len()) == "l2Book"@,
        message.channel@ == "l2Book"@,
        message.data is Ok,
        message.data->Ok_0.coin@ == reader.instrument.symbol@,
        message.data->Ok_0.levels@.len() >= 2,
    ensures
        ({
            let spec = reader.instrument;
            let readable = |level: HlLevel|
                normalized(level.px@, spec.price_scale) is Ok && normalized(
                    level.sz@,
                    spec.quantity_scale,
                ) is Ok;
            let value = |level: HlLevel|
                PriceLevel {
                    price: normalized(level.px@, spec.price_scale)->Ok_0 as i64,
                    quantity: normalized(level.sz@, spec.quantity_scale)->Ok_0 as i64,
                };
            let sides = message.data->Ok_0.levels@;
            let number = (reader.seq + 1) as u64;
            reader.step(ReaderInput::Frame(Frame::Text { text, message: Some(message) })) == (
                ReaderModel { seq: number, phase: ReaderPhase::Replying, ..reader },
                CommandModel::Forward(
                    UpdateModel::Full {
                        bids: sides[0]@.filter(readable).map_values(value),
                        asks: sides[1]@.filter(readable).map_values(value),
                    },
                    number,
                ),
            )
        }),
{
    let spec = reader.instrument;
    law_what_a_text_brings(text@, message, spec.symbol@, spec);
    law_feed_keeps_readable_levels(message.data->Ok_0.levels@[0]@, spec);
    law_feed_keeps_readable_levels(message.data->Ok_0.levels@[1]@, spec);
}

/// No other text frame is forwarded: the reader reads on as if it had not come.
pub proof fn law_other_texts_are_passed_over(
    reader: ReaderModel,
    text: String,
    message: Option<HlWsMessage>,
)
    requires
        reader.phase == ReaderPhase::Streaming,
        match message {
            None => true,
            Some(m) => {
                ||| forall|i: int|
                    0 <= i <= text@.len() - "l2Book"@.len() ==> #[trigger] text@.subrange(
                        i,
                        i + "l2Book"@.len(),
                    ) != "l2Book"@
                ||| m.channel@ != "l2Book"@
                ||| m.data is Err
                ||| m.data->Ok_0.coin@ != reader.instrument.symbol@
                ||| m.data->Ok_0.levels@.len() < 2
            },
        },
    ensures
        reader.step(ReaderInput::Frame(Frame::Text { text, message })) == (
            reader,
            CommandModel::Read,
        ),
{
    if let Some(m) = message {
        law_what_a_text_brings(text@, m, reader.instrument.symbol@, reader.instrument);
    }
}

/// Pings are answered with their payload, and other frames without a meaning are passed over.
pub proof fn law_other_frames(reader: ReaderModel, payload: Vec<u8>)
    requires
        reader.phase == ReaderPhase::Streaming,
    ensures
        reader.step(ReaderInput::Frame(Frame::Ping(payload))) == (
            ReaderModel { phase: ReaderPhase::Replying, ..reader },
            CommandModel::Pong(payload@),
        ),
        reader.step(ReaderInput::Frame(Frame::Other)) == (reader, CommandModel::Read),
        reader.step(ReaderInput::Frame(Frame::Close)) == (
            ReaderModel { phase: ReaderPhase::Dropping, ..reader },
            CommandModel::Notify("connection dropped"@),
        ),
        reader.step(ReaderInput::Frame(Frame::Error)) == reader.step(
            ReaderInput::Frame(Frame::Close),
        ),
        reader.step(ReaderInput::Frame(Frame::End)) == reader.step(
            ReaderInput::Frame(Frame::Close),
        ),
{
}

/// From an open connection to the first frame: the connection is published, a moment passes,
/// the subscription for the reader's coin is sent, and then the reader reads. What it forwards
/// or answers, whether it got through or not, is followed by the next frame.
pub proof fn law_reader_subscribes_and_reads(reader: ReaderModel)
    ensures
        reader.phase == ReaderPhase::Connecting ==> reader.step(ReaderInput::Done) == (
            ReaderModel { attempts: 0, phase: ReaderPhase::Announcing, ..reader },
            CommandModel::Publish(LinkState::Connected),
        ),
        reader.phase == ReaderPhase::Announcing ==> reader.step(ReaderInput::Done) == (
            ReaderModel { phase: ReaderPhase::Settling, ..reader },
            CommandModel::Pause(100),
        ),
        reader.phase == ReaderPhase::Settling ==> reader.step(ReaderInput::Done) == (
            ReaderModel { phase: ReaderPhase::Subscribing, ..reader },
            CommandModel::Subscribe(
                "{\"method\":\"subscribe\",\"subscription\":{\"type\":\"l2Book\",\"coin\":"@
                    + json_string(reader.instrument.symbol@) + "}}"@,
            ),
        ),
        reader.phase == ReaderPhase::Subscribing ==> reader.step(ReaderInput::Done) == (
            ReaderModel { phase: ReaderPhase::Streaming, ..reader },
            CommandModel::Read,
        ),
        reader.phase == ReaderPhase::Subscribing ==> reader.step(ReaderInput::Failed) == (
            ReaderModel { phase: ReaderPhase::Connecting, ..reader },
            CommandModel::Connect,
        ),
        reader.phase == ReaderPhase::Replying ==> reader.step(ReaderInput::Done) == (
            ReaderModel { phase: ReaderPhase::Streaming, ..reader },
            CommandModel::Read,
        ),
        reader.phase == ReaderPhase::Replying ==> reader.step(ReaderInput::Failed) == (
            ReaderModel { phase: ReaderPhase::Streaming, ..reader },
            CommandModel::Read,
        ),
{
}

/// From a lost connection to the next attempt. A connection that could not be opened is
/// published, and a lost one reported, before the attempt is counted; a reader whose report
/// reaches nobody stops. Nine attempts are each followed by a pause of half a second times two
/// to the number of the attempt, thirty seconds at most, and the jitter; the tenth is the last.
pub proof fn law_reader_retries_and_gives_up(reader: ReaderModel, jitter_ms: u64)
    requires
        reader.attempts < 10,
    ensures
        reader.phase == ReaderPhase::Connecting ==> reader.step(ReaderInput::Failed) == (
            ReaderModel { phase: ReaderPhase::Failing, ..reader },
            CommandModel::Publish(LinkState::Reconnecting { attempts: reader.attempts }),
        ),
        reader.phase == ReaderPhase::Dropping ==> reader.step(ReaderInput::Failed) == (
            ReaderModel { phase: ReaderPhase::Stopped, ..reader },
            CommandModel::Stop,
        ),
        reader.phase == ReaderPhase::Failing || reader.phase == ReaderPhase::Dropping ==> {
            let attempts = (reader.attempts + 1) as u32;
            let grown = 500 * pow(2, attempts as nat);
            let backoff = if grown < 30_000 {
                grown as u64
            } else {
                30_000u64
            };
            &&& attempts == 10 ==> reader.step(ReaderInput::Done) == (
                ReaderModel { attempts, phase: ReaderPhase::GivingUp, ..reader },
                CommandModel::Publish(
                    LinkState::Failed { reason: "max reconnect attempts reached"@ },
                ),
            )
            &&& attempts < 10 ==> reader.step(ReaderInput::Done) == (
                ReaderModel {
                    attempts,
                    phase: ReaderPhase::BackingOff { backoff_ms: backoff },
                    ..reader
                },
                CommandModel::DrawJitter(backoff),
            )
        },
        reader.phase matches ReaderPhase::BackingOff { backoff_ms } ==> backoff_ms + jitter_ms
            <= u64::MAX ==> reader.step(ReaderInput::Jitter(jitter_ms)) == (
            ReaderModel {
                phase: ReaderPhase::Retrying { wait_ms: (backoff_ms + jitter_ms) as u64 },
                ..reader
            },
            CommandModel::Publish(LinkState::Reconnecting { attempts: reader.attempts }),
        ),
        reader.phase matches ReaderPhase::Retrying { wait_ms } ==> reader.step(ReaderInput::Done)
            == (
            ReaderModel { phase: ReaderPhase::Waiting, ..reader },
            CommandModel::Pause(wait_ms),
        ),
        reader.phase == ReaderPhase::Waiting ==> reader.step(ReaderInput::Done) == (
            ReaderModel { phase: ReaderPhase::Connecting, ..reader },
            CommandModel::Connect,
        ),
{
}

/// A reader that has given up stops.
pub proof fn law_reader_stops_after_giving_up(reader: ReaderModel)
    requires
        reader.phase == ReaderPhase::GivingUp,
    ensures
        reader.step(ReaderInput::Done) == (
            ReaderModel { phase: ReaderPhase::Stopped, ..reader },
            CommandModel::Stop,
        ),
{
}

/// Before the first attempt half a second would pass, and each attempt doubles that up to
/// thirty seconds.
pub proof fn law_backoff_in_figures(attempts: nat)
    ensures
        backoff_ms(0) == 500,
        backoff_ms(attempts) == if 500 * pow(2, attempts) < 30_000 {
            500 * pow(2, attempts)
        } else {
            30_000
        },
{
    vstd::arithmetic::power::lemma_pow0(2);
}

/// A reader starts with an attempt to connect, and has forwarded nothing.
pub proof fn law_reader_starts_by_connecting(instrument: InstrumentSpec)
    ensures
        ReaderModel::fresh(instrument).instrument == instrument,
        ReaderModel::fresh(instrument).attempts == 0,
        ReaderModel::fresh(instrument).seq == 0,
        ReaderModel::fresh(instrument).phase == ReaderPhase::Connecting,
{
}

/// Which inputs the reader takes: done or failed where a command can fail, a frame where it
/// reads, a jitter where it asks for one, done where a command cannot fail, and none once it
/// has stopped. A frame has to be within range and leave a number for its update, and a jitter
/// a wait that a `u64` can hold.
pub proof fn law_which_inputs_are_taken(
    reader: ReaderModel,
    frame: Frame,
    text: String,
    message: Option<HlWsMessage>,
    jitter_ms: u64,
)
    ensures
        reader.admits(ReaderInput::Done) <==> !(reader.phase is Streaming || reader.phase is BackingOff
            || reader.phase is Stopped),
        reader.admits(ReaderInput::Failed) <==> (reader.phase is Connecting || reader.phase is Subscribing
            || reader.phase is Replying || reader.phase is Dropping),
        reader.admits(ReaderInput::Jitter(jitter_ms)) <==> (reader.phase matches ReaderPhase::BackingOff {
            backoff_ms,
        } && backoff_ms + jitter_ms <= u64::MAX),
        !(frame is Text) ==> (reader.admits(ReaderInput::Frame(frame))
            <==> reader.phase is Streaming),
        reader.admits(ReaderInput::Frame(Frame::Text { text, message })) <==> {
            &&& reader.phase is Streaming
            &&& book_levels_fit(
                text@,
                message,
                reader.instrument.symbol@,
                reader.instrument,
            )
            &&& reader.seq == u64::MAX ==> !(reader.step(
                ReaderInput::Frame(Frame::Text { text, message }),
            ).1 is Forward)
        },
{
}

/// The message that subscribes names the channel and the coin.
pub proof fn law_subscription_names_the_coin(coin: Seq<char>)
    ensures
        subscription(coin)
            == "{\"method\":\"subscribe\",\"subscription\":{\"type\":\"l2Book\",\"coin\":"@
            + json_string(coin) + "}}"@,
{
}

/// A command stands for what it holds, but for the time of a state.
pub proof fn law_command_shows_what_it_holds(
    since: Instant,
    attempts: u32,
    text: String,
    ms: u64,
    payload: Vec<u8>,
    raw: RawBookUpdate,
)
    ensures
        ConnectionState::Connected@ == LinkState::Connected,
        (ConnectionState::Reconnecting { since, attempts })@ == (LinkState::Reconnecting {
            attempts,
        }),
        (ConnectionState::Failed { reason: text })@ == (LinkState::Failed { reason: text@ }),
        ReaderCommand::Connect@ == CommandModel::Connect,
        ReaderCommand::Publish(ConnectionState::Connected)@ == CommandModel::Publish(
            LinkState::Connected,
        ),
        ReaderCommand::Publish((ConnectionState::Reconnecting { since, attempts }))@
            == CommandModel::Publish((LinkState::Reconnecting { attempts })),
        ReaderCommand::Publish((ConnectionState::Failed { reason: text }))@
            == CommandModel::Publish((LinkState::Failed { reason: text@ })),
        ReaderCommand::Pause(ms)@ == CommandModel::Pause(ms),
        ReaderCommand::Subscribe(text)@ == CommandModel::Subscribe(text@),
        ReaderCommand::Read@ == CommandModel::Read,
        ReaderCommand::Forward(raw)@ == CommandModel::Forward(raw.update@, raw.seq),
        ReaderCommand::Pong(payload)@ == CommandModel::Pong(payload@),
        ReaderCommand::Notify((ReaderEvent::Disconnected { reason: text }))@
            == CommandModel::Notify(text@),
        ReaderCommand::DrawJitter(ms)@ == CommandModel::DrawJitter(ms),
        ReaderCommand::Stop@ == CommandModel::Stop,
{
}

} // verus!
