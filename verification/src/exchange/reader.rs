//! The feed reader: how it connects, subscribes, passes on what it reads, and retries.
//!
//! `FeedReader` decides what to do next; the caller does it and reports how it went.
use crate::clock::is_clock_reading;
use crate::exchange::hyperliquid::{
    book_levels, book_levels_fit, can_parse_l2_message, parse_l2_message, HlWsMessage,
};
use crate::exchange::ConnectionState;
use crate::order_book::book::{BookUpdate, RawBookUpdate, UpdateModel};
use crate::types::InstrumentSpec;
use std::time::Instant;
use vstd::arithmetic::power::pow;
use vstd::prelude::*;

verus! {

/// First factor of the time between two attempts to connect.
pub const RECONNECT_BASE_MS: u64 = 500;

/// Longest time between two attempts to connect, without jitter.
pub const RECONNECT_MAX_MS: u64 = 30_000;

/// Number of attempts to connect, one after the other, that the reader gives up at.
pub const MAX_RECONNECT_ATTEMPTS: u32 = 10;

/// Pause between connecting and subscribing, which the venue needs.
pub const SETTLE_MS: u64 = 100;

// The subscription message

/// The lower-case hexadecimal digit for a number below sixteen.
pub open spec fn hex_char(d: int) -> char {
    if d < 10 {
        (d + '0' as int) as char
    } else {
        (d - 10 + 'a' as int) as char
    }
}

/// A character inside a JSON string.
pub open spec fn json_char(c: char) -> Seq<char> {
    let code = c as int;
    if c == '"' {
        seq!['\\', '"']
    } else if c == '\\' {
        seq!['\\', '\\']
    } else if code == 0x08 {
        seq!['\\', 'b']
    } else if code == 0x09 {
        seq!['\\', 't']
    } else if code == 0x0a {
        seq!['\\', 'n']
    } else if code == 0x0c {
        seq!['\\', 'f']
    } else if code == 0x0d {
        seq!['\\', 'r']
    } else if code < 0x20 {
        seq!['\\', 'u', '0', '0', hex_char(code / 16), hex_char(code % 16)]
    } else {
        seq![c]
    }
}

/// The characters of a text inside a JSON string.
pub open spec fn json_chars(text: Seq<char>) -> Seq<char>
    decreases text.len(),
{
    if text.len() == 0 {
        Seq::empty()
    } else {
        json_chars(text.drop_last()) + json_char(text.last())
    }
}

/// A text as a JSON string, with its quotation marks.
pub open spec fn json_string(text: Seq<char>) -> Seq<char> {
    seq!['"'] + json_chars(text) + seq!['"']
}

/// `serde_json::to_string` on a string: the string in quotation marks, with the quotation
/// mark, the backslash and the control characters below U+0020 escaped, and all others as they
/// are. Serialising a string into memory does not fail.
#[verifier::external_body]
fn to_json_string(text: &str) -> (json: String)
    ensures
        json@ == json_string(text@),
{
    serde_json::to_string(text).unwrap()
}

/// The message that subscribes to the book of `coin`.
pub open spec fn subscription(coin: Seq<char>) -> Seq<char> {
    "{\"method\":\"subscribe\",\"subscription\":{\"type\":\"l2Book\",\"coin\":"@ + json_string(coin)
        + "}}"@
}

/// The message that subscribes to the book of `coin`.
pub fn subscription_message(coin: &str) -> (message: String)
    ensures
        message@ == subscription(coin@),
{
    let mut message = "{\"method\":\"subscribe\",\"subscription\":{\"type\":\"l2Book\",\"coin\":".to_string();
    message.append(to_json_string(coin).as_str());
    message.append("}}");
    message
}

// The reader

/// What the venue sends over the connection.
pub enum Frame {
    /// A text, and what it holds if it can be read as a message.
    Text { text: String, message: Option<HlWsMessage> },
    /// A ping with its payload.
    Ping(Vec<u8>),
    /// The venue closes the connection.
    Close,
    /// The connection could not be read.
    Error,
    /// The connection has ended.
    End,
    /// Anything else.
    Other,
}

/// Sent to the owner of the reader.
pub enum ReaderEvent {
    Disconnected { reason: String },
}

/// How the last command went.
pub enum ReaderInput {
    /// It is done.
    Done,
    /// It failed.
    Failed,
    /// This frame was read.
    Frame(Frame),
    /// This jitter, in milliseconds, was drawn.
    Jitter(u64),
}

/// What to do next.
pub enum ReaderCommand {
    /// Open the connection.
    Connect,
    /// Publish the state of the connection. This does not fail.
    Publish(ConnectionState),
    /// Wait for some milliseconds.
    Pause(u64),
    /// Send the subscription message.
    Subscribe(String),
    /// Read the next frame.
    Read,
    /// Send this update to the order book task.
    Forward(RawBookUpdate),
    /// Answer a ping.
    Pong(Vec<u8>),
    /// Send this to the owner of the reader.
    Notify(ReaderEvent),
    /// Draw a jitter for this backoff in milliseconds.
    DrawJitter(u64),
    /// The reader has ended.
    Stop,
}

/// A `ConnectionState` without its time.
pub enum LinkState {
    Connected,
    Reconnecting { attempts: u32 },
    Failed { reason: Seq<char> },
}

impl View for ConnectionState {
    type V = LinkState;

    open spec fn view(&self) -> LinkState {
        match *self {
            ConnectionState::Connected => LinkState::Connected,
            ConnectionState::Reconnecting { since, attempts } => LinkState::Reconnecting {
                attempts,
            },
            ConnectionState::Failed { reason } => LinkState::Failed { reason: reason@ },
        }
    }
}

/// A `ReaderCommand` with texts and levels as sequences.
pub enum CommandModel {
    Connect,
    Publish(LinkState),
    Pause(u64),
    Subscribe(Seq<char>),
    Read,
    Forward(UpdateModel, u64),
    Pong(Seq<u8>),
    Notify(Seq<char>),
    DrawJitter(u64),
    Stop,
}

impl View for ReaderCommand {
    type V = CommandModel;

    open spec fn view(&self) -> CommandModel {
        match *self {
            ReaderCommand::Connect => CommandModel::Connect,
            ReaderCommand::Publish(state) => CommandModel::Publish(state@),
            ReaderCommand::Pause(ms) => CommandModel::Pause(ms),
            ReaderCommand::Subscribe(message) => CommandModel::Subscribe(message@),
            ReaderCommand::Read => CommandModel::Read,
            ReaderCommand::Forward(raw) => CommandModel::Forward(raw.update@, raw.seq),
            ReaderCommand::Pong(payload) => CommandModel::Pong(payload@),
            ReaderCommand::Notify(event) => match event {
                ReaderEvent::Disconnected { reason } => CommandModel::Notify(reason@),
            },
            ReaderCommand::DrawJitter(backoff_ms) => CommandModel::DrawJitter(backoff_ms),
            ReaderCommand::Stop => CommandModel::Stop,
        }
    }
}

/// A command to publish that the connection is being opened again bears the time of the clock.
pub open spec fn is_stamped(command: ReaderCommand) -> bool {
    match command {
        ReaderCommand::Publish(ConnectionState::Reconnecting { since, attempts }) => is_clock_reading(
            since,
        ),
        _ => true,
    }
}

/// Which command the reader has given last.
#[derive(Debug, Clone, Copy, PartialEq, Eq, Structural)]
pub enum ReaderPhase {
    /// To open the connection.
    Connecting,
    /// To publish that the connection is open.
    Announcing,
    /// To wait before subscribing.
    Settling,
    /// To send the subscription.
    Subscribing,
    /// To read a frame.
    Streaming,
    /// To forward an update or answer a ping.
    Replying,
    /// To tell the owner that the connection is gone.
    Dropping,
    /// To publish that the connection could not be opened.
    Failing,
    /// To draw the jitter for this backoff.
    BackingOff { backoff_ms: u64 },
    /// To publish that another attempt follows after this time.
    Retrying { wait_ms: u64 },
    /// To wait before the next attempt.
    Waiting,
    /// To publish that there is no further attempt.
    GivingUp,
    /// None: the reader has ended.
    Stopped,
}

/// The time before an attempt to connect, without jitter: it doubles up to a limit.
pub open spec fn backoff_ms(attempts: nat) -> int {
    let grown = RECONNECT_BASE_MS * pow(2, attempts);
    if grown < RECONNECT_MAX_MS {
        grown
    } else {
        RECONNECT_MAX_MS as int
    }
}

/// The state of a `FeedReader` as a mathematical value.
#[verifier::ext_equal]
pub struct ReaderModel {
    pub instrument: InstrumentSpec,
    /// Attempts to connect since the connection was last open.
    pub attempts: u32,
    /// Number of the last update that was forwarded.
    pub seq: u64,
    pub phase: ReaderPhase,
}

impl ReaderModel {
    /// A reader that opens its connection for the first time.
    pub open spec fn fresh(instrument: InstrumentSpec) -> ReaderModel {
        ReaderModel { instrument, attempts: 0, seq: 0, phase: ReaderPhase::Connecting }
    }

    /// The levels that a frame brings, if it brings any.
    pub open spec fn levels_of(self, text: String, message: Option<HlWsMessage>) -> Option<
        UpdateModel,
    > {
        match book_levels(text@, message, self.instrument.symbol@, self.instrument) {
            Some(sides) => Some(UpdateModel::Full { bids: sides.0, asks: sides.1 }),
            None => None,
        }
    }

    /// The input is an answer to the last command.
    pub open spec fn expects(self, input: ReaderInput) -> bool {
        match self.phase {
            ReaderPhase::Connecting
            | ReaderPhase::Subscribing
            | ReaderPhase::Replying
            | ReaderPhase::Dropping => input is Done || input is Failed,
            ReaderPhase::Streaming => input is Frame,
            ReaderPhase::BackingOff { .. } => input is Jitter,
            ReaderPhase::Stopped => false,
            _ => input is Done,
        }
    }

    /// The input is expected, and no computation for it leaves the range of its type.
    pub open spec fn admits(self, input: ReaderInput) -> bool {
        &&& self.expects(input)
        &&& match input {
            ReaderInput::Frame(Frame::Text { text, message }) => {
                &&& book_levels_fit(text@, message, self.instrument.symbol@, self.instrument)
                &&& self.levels_of(text, message) is Some ==> self.seq < u64::MAX
            },
            ReaderInput::Jitter(jitter_ms) => self.phase matches ReaderPhase::BackingOff {
                backoff_ms,
            } && backoff_ms + jitter_ms <= u64::MAX,
            _ => true,
        }
    }

    /// The reader after an attempt that did not last, with its next command.
    pub open spec fn retry(self) -> (ReaderModel, CommandModel) {
        let attempts = (self.attempts + 1) as u32;
        if attempts >= MAX_RECONNECT_ATTEMPTS {
            (
                ReaderModel { attempts, phase: ReaderPhase::GivingUp, ..self },
                CommandModel::Publish(
                    LinkState::Failed { reason: "max reconnect attempts reached"@ },
                ),
            )
        } else {
            let backoff = backoff_ms(attempts as nat) as u64;
            (
                ReaderModel {
                    attempts,
                    phase: ReaderPhase::BackingOff { backoff_ms: backoff },
                    ..self
                },
                CommandModel::DrawJitter(backoff),
            )
        }
    }

    /// The reader in another phase.
    pub open spec fn at(self, phase: ReaderPhase) -> ReaderModel {
        ReaderModel { phase, ..self }
    }

    /// The reader after a frame, with its next command.
    pub open spec fn read(self, frame: Frame) -> (ReaderModel, CommandModel) {
        match frame {
            Frame::Text { text, message } => match self.levels_of(text, message) {
                Some(update) => (
                    ReaderModel { seq: (self.seq + 1) as u64, ..self.at(ReaderPhase::Replying) },
                    CommandModel::Forward(update, (self.seq + 1) as u64),
                ),
                None => (self, CommandModel::Read),
            },
            Frame::Ping(payload) => (
                self.at(ReaderPhase::Replying),
                CommandModel::Pong(payload@),
            ),
            Frame::Close | Frame::Error | Frame::End => (
                self.at(ReaderPhase::Dropping),
                CommandModel::Notify("connection dropped"@),
            ),
            Frame::Other => (self, CommandModel::Read),
        }
    }

    /// The reader after an input, with its next command.
    pub open spec fn step(self, input: ReaderInput) -> (ReaderModel, CommandModel) {
        match self.phase {
            ReaderPhase::Connecting => if input is Done {
                (
                    ReaderModel { attempts: 0, ..self.at(ReaderPhase::Announcing) },
                    CommandModel::Publish(LinkState::Connected),
                )
            } else {
                (
                    self.at(ReaderPhase::Failing),
                    CommandModel::Publish(LinkState::Reconnecting { attempts: self.attempts }),
                )
            },
            ReaderPhase::Announcing => (
                self.at(ReaderPhase::Settling),
                CommandModel::Pause(SETTLE_MS),
            ),
            ReaderPhase::Settling => (
                self.at(ReaderPhase::Subscribing),
                CommandModel::Subscribe(subscription(self.instrument.symbol@)),
            ),
            ReaderPhase::Subscribing => if input is Done {
                (self.at(ReaderPhase::Streaming), CommandModel::Read)
            } else {
                (self.at(ReaderPhase::Connecting), CommandModel::Connect)
            },
            ReaderPhase::Streaming => match input {
                ReaderInput::Frame(frame) => self.read(frame),
                _ => (self, CommandModel::Read),
            },
            ReaderPhase::Replying => (self.at(ReaderPhase::Streaming), CommandModel::Read),
            ReaderPhase::Dropping => if input is Done {
                self.retry()
            } else {
                (self.at(ReaderPhase::Stopped), CommandModel::Stop)
            },
            ReaderPhase::Failing => self.retry(),
            ReaderPhase::BackingOff { backoff_ms } => match input {
                ReaderInput::Jitter(jitter_ms) => (
                    self.at(ReaderPhase::Retrying { wait_ms: (backoff_ms + jitter_ms) as u64 }),
                    CommandModel::Publish(LinkState::Reconnecting { attempts: self.attempts }),
                ),
                _ => (self, CommandModel::DrawJitter(backoff_ms)),
            },
            ReaderPhase::Retrying { wait_ms } => (
                self.at(ReaderPhase::Waiting),
                CommandModel::Pause(wait_ms),
            ),
            ReaderPhase::Waiting => (self.at(ReaderPhase::Connecting), CommandModel::Connect),
            ReaderPhase::GivingUp => (self.at(ReaderPhase::Stopped), CommandModel::Stop),
            ReaderPhase::Stopped => (self, CommandModel::Stop),
        }
    }

    /// The connection is open.
    pub open spec fn is_open(self) -> bool {
        match self.phase {
            ReaderPhase::Announcing
            | ReaderPhase::Settling
            | ReaderPhase::Subscribing
            | ReaderPhase::Streaming
            | ReaderPhase::Replying => true,
            _ => false,
        }
    }

    /// The attempts are counted up to the limit, which ends the reader, and none is counted
    /// while the connection is open or its loss is not yet reported.
    pub open spec fn well_formed(self) -> bool {
        &&& self.is_open() || self.phase is Dropping ==> self.attempts == 0
        &&& self.attempts <= MAX_RECONNECT_ATTEMPTS
        &&& self.attempts == MAX_RECONNECT_ATTEMPTS ==> self.phase is GivingUp
            || self.phase is Stopped
        &&& self.phase matches ReaderPhase::BackingOff { backoff_ms: backoff } ==> backoff
            == backoff_ms(self.attempts as nat) && self.attempts >= 1
    }
}

/// Decides what to do with the connection to the feed of one instrument.
pub struct FeedReader {
    instrument: InstrumentSpec,
    attempts: u32,
    seq: u64,
    phase: ReaderPhase,
}

impl View for FeedReader {
    type V = ReaderModel;

    closed spec fn view(&self) -> ReaderModel {
        ReaderModel {
            instrument: self.instrument,
            attempts: self.attempts,
            seq: self.seq,
            phase: self.phase,
        }
    }
}

/// The time before an attempt to connect, without jitter.
pub fn backoff(attempts: u32) -> (ms: u64)
    ensures
        ms == backoff_ms(attempts as nat),
{
    let mut ms: u64 = RECONNECT_BASE_MS;
    let mut i: u32 = 0;
    proof {
        vstd::arithmetic::power::lemma_pow0(2);
    }
    while i < attempts
        invariant
            i <= attempts,
            ms == backoff_ms(i as nat),
            ms <= RECONNECT_MAX_MS,
        decreases attempts - i,
    {
        proof {
            lemma_backoff_doubles(i as nat);
        }
        ms = if ms * 2 < RECONNECT_MAX_MS {
            ms * 2
        } else {
            RECONNECT_MAX_MS
        };
        i += 1;
    }
    ms
}

proof fn lemma_backoff_doubles(attempts: nat)
    ensures
        backoff_ms(attempts + 1) == if 2 * backoff_ms(attempts) < RECONNECT_MAX_MS {
            2 * backoff_ms(attempts)
        } else {
            RECONNECT_MAX_MS as int
        },
        RECONNECT_BASE_MS <= backoff_ms(attempts) <= RECONNECT_MAX_MS,
{
    vstd::arithmetic::power::lemma_pow_adds(2, attempts, 1);
    vstd::arithmetic::power::lemma_pow1(2);
    vstd::arithmetic::power::lemma_pow_positive(2, attempts);
    assert(RECONNECT_BASE_MS * pow(2, attempts + 1) == 2 * (RECONNECT_BASE_MS * pow(2, attempts)));
}

/// Each further attempt waits twice as long as the one before it, up to the limit, and never
/// less long than the one before it.
pub proof fn law_backoff_doubles_up_to_limit(attempts: nat)
    ensures
        backoff_ms(attempts + 1) == if 2 * backoff_ms(attempts) < RECONNECT_MAX_MS {
            2 * backoff_ms(attempts)
        } else {
            RECONNECT_MAX_MS as int
        },
        RECONNECT_BASE_MS <= backoff_ms(attempts) <= backoff_ms(attempts + 1) <= RECONNECT_MAX_MS,
{
    lemma_backoff_doubles(attempts);
}

impl FeedReader {
    /// A reader for this instrument. Its first command is to connect.
    pub fn new(instrument: InstrumentSpec) -> (reader: Self)
        ensures
            reader@ == ReaderModel::fresh(instrument),
            reader@.well_formed(),
    {
        FeedReader { instrument, attempts: 0, seq: 0, phase: ReaderPhase::Connecting }
    }

    /// Attempts to connect since the connection was last open.
    pub fn attempts(&self) -> (attempts: u32)
        ensures
            attempts == self@.attempts,
    {
        self.attempts
    }

    /// Says whether `step` can be called with this input.
    pub fn can_step(&self, input: &ReaderInput) -> (yes: bool)
        ensures
            yes == self@.admits(*input),
    {
        match self.phase {
            ReaderPhase::Connecting
            | ReaderPhase::Subscribing
            | ReaderPhase::Replying
            | ReaderPhase::Dropping => match input {
                ReaderInput::Done | ReaderInput::Failed => true,
                _ => false,
            },
            ReaderPhase::Streaming => match input {
                ReaderInput::Frame(Frame::Text { text, message }) => {
                    let symbol = self.instrument.symbol.as_str();
                    if !can_parse_l2_message(text.as_str(), message, symbol, &self.instrument) {
                        return false;
                    }
                    parse_l2_message(text.as_str(), message, symbol, &self.instrument).is_none()
                        || self.seq < u64::MAX
                },
                ReaderInput::Frame(_) => true,
                _ => false,
            },
            ReaderPhase::BackingOff { backoff_ms } => match input {
                ReaderInput::Jitter(jitter_ms) => backoff_ms.checked_add(*jitter_ms).is_some(),
                _ => false,
            },
            ReaderPhase::Stopped => false,
            _ => match input {
                ReaderInput::Done => true,
                _ => false,
            },
        }
    }

    fn retry(&mut self) -> (command: ReaderCommand)
        requires
            old(self)@.attempts < MAX_RECONNECT_ATTEMPTS,
        ensures
            (final(self)@, command@) == old(self)@.retry(),
    {
        self.attempts += 1;
        if self.attempts >= MAX_RECONNECT_ATTEMPTS {
            self.phase = ReaderPhase::GivingUp;
            ReaderCommand::Publish(
                ConnectionState::Failed { reason: "max reconnect attempts reached".to_string() },
            )
        } else {
            let backoff_ms: u64 = backoff(self.attempts);
            self.phase = ReaderPhase::BackingOff { backoff_ms };
            ReaderCommand::DrawJitter(backoff_ms)
        }
    }

    fn reconnecting(&self) -> (command: ReaderCommand)
        ensures
            command@ == CommandModel::Publish(
                LinkState::Reconnecting { attempts: self@.attempts },
            ),
            is_stamped(command),
    {
        let since = Instant::now();
        assert(is_clock_reading(since));
        ReaderCommand::Publish(
            ConnectionState::Reconnecting { since, attempts: self.attempts },
        )
    }

    fn read(&mut self, frame: Frame) -> (command: ReaderCommand)
        requires
            old(self)@.phase is Streaming,
            old(self)@.admits(ReaderInput::Frame(frame)),
        ensures
            (final(self)@, command@) == old(self)@.read(frame),
    {
        match frame {
            Frame::Text { text, message } => {
                let levels = parse_l2_message(
                    text.as_str(),
                    &message,
                    self.instrument.symbol.as_str(),
                    &self.instrument,
                );
                match levels {
                    Some((bids, asks)) => {
                        self.seq += 1;
                        self.phase = ReaderPhase::Replying;
                        ReaderCommand::Forward(
                            RawBookUpdate { update: BookUpdate::Full { bids, asks }, seq: self.seq },
                        )
                    },
                    None => ReaderCommand::Read,
                }
            },
            Frame::Ping(payload) => {
                self.phase = ReaderPhase::Replying;
                ReaderCommand::Pong(payload)
            },
            Frame::Close | Frame::Error | Frame::End => {
                self.phase = ReaderPhase::Dropping;
                ReaderCommand::Notify(
                    ReaderEvent::Disconnected { reason: "connection dropped".to_string() },
                )
            },
            Frame::Other => ReaderCommand::Read,
        }
    }

    /// Takes in how the last command went, and gives the next one.
    ///
    /// A reader whose connection drops tells its owner; if the owner is gone, as it is once
    /// the driver has disconnected, the reader stops. Otherwise it tries again after a backoff
    /// that grows with each attempt, and gives up after too many.
    pub fn step(&mut self, input: ReaderInput) -> (command: ReaderCommand)
        requires
            old(self)@.well_formed(),
            old(self)@.admits(input),
        ensures
            (final(self)@, command@) == old(self)@.step(input),
            is_stamped(command),
            command matches ReaderCommand::Publish(
                ConnectionState::Reconnecting { since, .. },
            ) ==> call_ensures(Instant::now, (), since),
            final(self)@.well_formed(),
    {
        proof {
            law_step_keeps_reader_well_formed(self@, input);
        }
        let done = match &input {
            ReaderInput::Done => true,
            _ => false,
        };
        match self.phase {
            ReaderPhase::Connecting => if done {
                self.attempts = 0;
                self.phase = ReaderPhase::Announcing;
                ReaderCommand::Publish(ConnectionState::Connected)
            } else {
                self.phase = ReaderPhase::Failing;
                self.reconnecting()
            },
            ReaderPhase::Announcing => {
                self.phase = ReaderPhase::Settling;
                ReaderCommand::Pause(SETTLE_MS)
            },
            ReaderPhase::Settling => {
                self.phase = ReaderPhase::Subscribing;
                ReaderCommand::Subscribe(subscription_message(self.instrument.symbol.as_str()))
            },
            ReaderPhase::Subscribing => if done {
                self.phase = ReaderPhase::Streaming;
                ReaderCommand::Read
            } else {
                self.phase = ReaderPhase::Connecting;
                ReaderCommand::Connect
            },
            ReaderPhase::Streaming => match input {
                ReaderInput::Frame(frame) => self.read(frame),
                _ => ReaderCommand::Read,
            },
            ReaderPhase::Replying => {
                self.phase = ReaderPhase::Streaming;
                ReaderCommand::Read
            },
            ReaderPhase::Dropping => if done {
                self.retry()
            } else {
                self.phase = ReaderPhase::Stopped;
                ReaderCommand::Stop
            },
            ReaderPhase::Failing => self.retry(),
            ReaderPhase::BackingOff { backoff_ms } => match input {
                ReaderInput::Jitter(jitter_ms) => {
                    self.phase = ReaderPhase::Retrying { wait_ms: backoff_ms + jitter_ms };
                    self.reconnecting()
                },
                _ => ReaderCommand::DrawJitter(backoff_ms),
            },
            ReaderPhase::Retrying { wait_ms } => {
                self.phase = ReaderPhase::Waiting;
                ReaderCommand::Pause(wait_ms)
            },
            ReaderPhase::Waiting => {
                self.phase = ReaderPhase::Connecting;
                ReaderCommand::Connect
            },
            ReaderPhase::GivingUp => {
                self.phase = ReaderPhase::Stopped;
                ReaderCommand::Stop
            },
            ReaderPhase::Stopped => ReaderCommand::Stop,
        }
    }
}

/// The attempts stay within the limit, and reaching it ends the reader.
pub proof fn law_step_keeps_reader_well_formed(reader: ReaderModel, input: ReaderInput)
    requires
        reader.well_formed(),
        reader.admits(input),
    ensures
        reader.step(input).0.well_formed(),
{
    lemma_backoff_doubles((reader.attempts + 1) as nat);
}

/// The reader numbers the updates that it forwards one after the other, and nothing else
/// moves its count.
pub proof fn law_updates_are_numbered_in_order(reader: ReaderModel, input: ReaderInput)
    requires
        reader.well_formed(),
        reader.admits(input),
    ensures
        match reader.step(input).1 {
            CommandModel::Forward(update, seq) => {
                &&& update is Full
                &&& seq == reader.seq + 1
                &&& reader.step(input).0.seq == seq
            },
            _ => reader.step(input).0.seq == reader.seq,
        },
{
}

/// An open connection counts as no attempt: the backoff starts over.
pub proof fn law_connection_resets_attempts(reader: ReaderModel)
    requires
        reader.phase is Connecting,
    ensures
        reader.step(ReaderInput::Done).0.attempts == 0,
        reader.step(ReaderInput::Done).1 == CommandModel::Publish(LinkState::Connected),
{
}

/// A connection that is lost while it is read is reported to the owner of the reader. If the
/// owner is gone the reader stops; otherwise the loss counts as the first attempt, and its
/// backoff follows.
pub proof fn law_lost_connection_is_reported(reader: ReaderModel, frame: Frame)
    requires
        reader.well_formed(),
        reader.phase is Streaming,
        frame is Close || frame is Error || frame is End,
    ensures
        reader.step(ReaderInput::Frame(frame)).1 == CommandModel::Notify("connection dropped"@),
        reader.step(ReaderInput::Frame(frame)).0.step(ReaderInput::Failed) == (
            reader.at(ReaderPhase::Stopped),
            CommandModel::Stop,
        ),
        reader.step(ReaderInput::Frame(frame)).0.step(ReaderInput::Done) == (
            ReaderModel {
                attempts: 1,
                ..reader.at(ReaderPhase::BackingOff { backoff_ms: backoff_ms(1) as u64 })
            },
            CommandModel::DrawJitter(backoff_ms(1) as u64),
        ),
{
}

/// The reader opens a connection again only after it has waited, or at once where the
/// subscription could not be sent.
pub proof fn law_connecting_follows_waiting(reader: ReaderModel, input: ReaderInput)
    requires
        reader.admits(input),
        reader.step(input).1 == CommandModel::Connect,
    ensures
        reader.phase is Waiting || reader.phase is Subscribing && input is Failed,
{
}

/// The wait before an attempt lasts for the whole backoff of that attempt and the jitter that
/// was drawn for it.
pub proof fn law_wait_covers_backoff(reader: ReaderModel, jitter_ms: u64)
    requires
        reader.well_formed(),
        reader.phase is BackingOff,
        reader.admits(ReaderInput::Jitter(jitter_ms)),
    ensures
        reader.step(ReaderInput::Jitter(jitter_ms)).0.step(ReaderInput::Done) == (
            reader.at(ReaderPhase::Waiting),
            CommandModel::Pause((backoff_ms(reader.attempts as nat) + jitter_ms) as u64),
        ),
        backoff_ms(reader.attempts as nat) + jitter_ms <= u64::MAX,
{
}

impl ReaderModel {
    /// The reader that was to connect, after it could not and has waited for the next attempt
    /// with this jitter.
    pub open spec fn after_failed_attempt(self, jitter_ms: u64) -> ReaderModel {
        self.step(ReaderInput::Failed).0.step(ReaderInput::Done).0.step(
            ReaderInput::Jitter(jitter_ms),
        ).0.step(ReaderInput::Done).0.step(ReaderInput::Done).0
    }

    /// The reader after a run of failed attempts, each with its jitter.
    pub open spec fn after_failed_attempts(self, jitters: Seq<u64>) -> ReaderModel
        decreases jitters.len(),
    {
        if jitters.len() == 0 {
            self
        } else {
            self.after_failed_attempts(jitters.drop_last()).after_failed_attempt(jitters.last())
        }
    }
}

/// A failed attempt is counted, and short of the limit another one follows.
pub proof fn law_failed_attempt_is_repeated(reader: ReaderModel, jitter_ms: u64)
    requires
        reader.phase is Connecting,
        reader.attempts + 1 < MAX_RECONNECT_ATTEMPTS,
    ensures
        reader.after_failed_attempt(jitter_ms) == (ReaderModel {
            attempts: (reader.attempts + 1) as u32,
            ..reader
        }),
{
}

/// Attempts that fail one after the other are given up at the limit: after nine of them the
/// tenth failure is published as final, and the reader stops.
pub proof fn law_reader_gives_up_at_limit(reader: ReaderModel, jitters: Seq<u64>)
    requires
        reader.phase is Connecting,
        reader.attempts == 0,
        jitters.len() == MAX_RECONNECT_ATTEMPTS - 1,
    ensures
        reader.after_failed_attempts(jitters).phase is Connecting,
        reader.after_failed_attempts(jitters).step(ReaderInput::Failed).0.step(
            ReaderInput::Done,
        ).1 == CommandModel::Publish(
            LinkState::Failed { reason: "max reconnect attempts reached"@ },
        ),
        reader.after_failed_attempts(jitters).step(ReaderInput::Failed).0.step(
            ReaderInput::Done,
        ).0.step(ReaderInput::Done).1 == CommandModel::Stop,
{
    lemma_failed_attempts_are_counted(reader, jitters);
}

proof fn lemma_failed_attempts_are_counted(reader: ReaderModel, jitters: Seq<u64>)
    requires
        reader.phase is Connecting,
        reader.attempts == 0,
        jitters.len() < MAX_RECONNECT_ATTEMPTS,
    ensures
        reader.after_failed_attempts(jitters) == (ReaderModel {
            attempts: jitters.len() as u32,
            ..reader
        }),
    decreases jitters.len(),
{
    if jitters.len() > 0 {
        lemma_failed_attempts_are_counted(reader, jitters.drop_last());
        law_failed_attempt_is_repeated(
            reader.after_failed_attempts(jitters.drop_last()),
            jitters.last(),
        );
    }
}

} // verus!
