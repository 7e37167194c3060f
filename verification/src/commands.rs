//! The command executor: it checks a command before it goes to the card,
//! classifies what came back, and keeps the history of every attempt.

use vstd::prelude::*;
use crate::codec::{parse_hex, parse_hex_spec};
use crate::error::Error;
use crate::reader::{copy_bytes, PcscReader};
use crate::text::push_text;
use crate::timestamp::{is_timestamp_text, Timestamp};

verus! {

/// The two kinds of command.
#[derive(Debug, Clone, Copy, PartialEq, Eq, Structural)]
pub enum CommandType {
    /// An APDU sent to the card.
    Transmit,
    /// A command for the reader itself, addressed by its control code.
    Control { code: u32 },
}

/// The record of one attempted command.
#[derive(Debug, Clone)]
pub struct CommandResult {
    /// When the attempt began, in UTC.
    pub timestamp: Timestamp,
    pub command_type: CommandType,
    /// The bytes that were sent.
    pub input: Vec<u8>,
    /// The bytes that came back; none after a failure.
    pub output: Vec<u8>,
    pub success: bool,
    /// The failure in words; none after a success.
    pub error: Option<String>,
    pub duration_ms: u64,
}

/// The mathematical content of a `CommandResult`.
pub ghost struct CommandResultView {
    pub timestamp: Seq<char>,
    pub command_type: CommandType,
    pub input: Seq<u8>,
    pub output: Seq<u8>,
    pub success: bool,
    pub error: Option<Seq<char>>,
    pub duration_ms: u64,
}

impl View for CommandResult {
    type V = CommandResultView;

    open spec fn view(&self) -> CommandResultView {
        CommandResultView {
            timestamp: self.timestamp@,
            command_type: self.command_type,
            input: self.input@,
            output: self.output@,
            success: self.success,
            error: match self.error {
                Some(text) => Some(text@),
                None => None,
            },
            duration_ms: self.duration_ms,
        }
    }
}

/// The views of `records`, in order.
pub open spec fn record_views(records: Seq<CommandResult>) -> Seq<CommandResultView> {
    records.map_values(|r: CommandResult| r@)
}

/// What a successful transmit gave.
#[derive(Debug, Clone)]
pub struct TransmitResult {
    pub apdu: Vec<u8>,
    pub response: Vec<u8>,
    pub sw1: u8,
    pub sw2: u8,
    pub duration_ms: u64,
}

/// What a successful control command gave.
#[derive(Debug, Clone)]
pub struct ControlResult {
    pub code: u32,
    pub input: Vec<u8>,
    pub output: Vec<u8>,
    pub duration_ms: u64,
}

/// Figures over a history.
#[derive(Debug, Clone, Copy, PartialEq, Eq, Structural)]
pub struct CommandStatistics {
    pub total_commands: usize,
    pub successful_commands: usize,
    pub failed_commands: usize,
    pub average_duration_ms: u64,
}

/// The number of successful records in `history`.
pub open spec fn count_successful(history: Seq<CommandResultView>) -> nat
    decreases history.len(),
{
    if history.len() == 0 {
        0
    } else {
        count_successful(history.drop_last()) + if history.last().success {
            1nat
        } else {
            0nat
        }
    }
}

/// The number of failed records in `history`.
pub open spec fn count_failed(history: Seq<CommandResultView>) -> nat
    decreases history.len(),
{
    if history.len() == 0 {
        0
    } else {
        count_failed(history.drop_last()) + if history.last().success {
            0nat
        } else {
            1nat
        }
    }
}

/// The sum of the durations in `history`.
pub open spec fn total_duration(history: Seq<CommandResultView>) -> nat
    decreases history.len(),
{
    if history.len() == 0 {
        0
    } else {
        total_duration(history.drop_last()) + history.last().duration_ms as nat
    }
}

/// The mean duration over `history`, rounded down; 0 for an empty history.
pub open spec fn average_duration(history: Seq<CommandResultView>) -> nat {
    if history.len() == 0 {
        0
    } else {
        total_duration(history) / history.len()
    }
}

/// The first status byte of `response`: the last byte but one, or 0 where
/// the response is shorter than two bytes.
pub open spec fn status_sw1(response: Seq<u8>) -> u8 {
    if response.len() >= 2 {
        response[response.len() - 2]
    } else {
        0
    }
}

/// The second status byte of `response`: the last byte, or 0 where the
/// response is shorter than two bytes.
pub open spec fn status_sw2(response: Seq<u8>) -> u8 {
    if response.len() >= 2 {
        response[response.len() - 1]
    } else {
        0
    }
}

/// The words recorded for a failed transmit.
pub open spec fn transmit_failure_text(reason: Seq<char>) -> Seq<char> {
    "Transmit failed: "@ + reason
}

/// The words recorded for a failed control command.
pub open spec fn control_failure_text(reason: Seq<char>) -> Seq<char> {
    "Control command failed: "@ + reason
}

/// The record of a command of kind `command_type` that sent `input` and met
/// `outcome`: the transport's bytes or its reason for failing.
pub open spec fn attempt_record(
    command_type: CommandType,
    input: Seq<u8>,
    timestamp: Seq<char>,
    outcome: Result<Vec<u8>, String>,
    duration_ms: u64,
) -> CommandResultView {
    match outcome {
        Ok(response) => CommandResultView {
            timestamp,
            command_type,
            input,
            output: response@,
            success: true,
            error: None,
            duration_ms,
        },
        Err(reason) => CommandResultView {
            timestamp,
            command_type,
            input,
            output: Seq::empty(),
            success: false,
            error: Some(
                match command_type {
                    CommandType::Transmit => transmit_failure_text(reason@),
                    CommandType::Control { .. } => control_failure_text(reason@),
                },
            ),
            duration_ms,
        },
    }
}

/// What `record_transmit` leaves behind and hands back: `after` is `before`
/// with the record of the attempt, and the result classifies the outcome.
pub open spec fn transmit_recorded(
    before: Seq<CommandResultView>,
    after: Seq<CommandResultView>,
    r: Result<TransmitResult, Error>,
    apdu: Seq<u8>,
    timestamp: Seq<char>,
    outcome: Result<Vec<u8>, String>,
    duration_ms: u64,
) -> bool {
    &&& after == before.push(
        attempt_record(CommandType::Transmit, apdu, timestamp, outcome, duration_ms),
    )
    &&& match outcome {
        Ok(response) => r matches Ok(result) && result.apdu@ == apdu && result.response@
            == response@ && result.sw1 == status_sw1(response@) && result.sw2 == status_sw2(
            response@,
        ) && result.duration_ms == duration_ms,
        Err(reason) => r matches Err(Error::TransmitFailed(text)) && text@ == reason@,
    }
}

/// What `record_control` leaves behind and hands back: `after` is `before`
/// with the record of the attempt, and the result classifies the outcome.
pub open spec fn control_recorded(
    before: Seq<CommandResultView>,
    after: Seq<CommandResultView>,
    r: Result<ControlResult, Error>,
    code: u32,
    data: Seq<u8>,
    timestamp: Seq<char>,
    outcome: Result<Vec<u8>, String>,
    duration_ms: u64,
) -> bool {
    &&& after == before.push(
        attempt_record(CommandType::Control { code }, data, timestamp, outcome, duration_ms),
    )
    &&& match outcome {
        Ok(response) => r matches Ok(result) && result.code == code && result.input@ == data
            && result.output@ == response@ && result.duration_ms == duration_ms,
        Err(reason) => r matches Err(Error::ControlFailed(text)) && text@ == reason@,
    }
}

/// What `transmit` promises. A command that is refused leaves the history
/// as it was; one that is sent leaves the record of what `send` answered,
/// with a timestamp and a duration of which only the form is known.
pub open spec fn transmit_post<C, F: FnOnce(&C, &Vec<u8>) -> Result<Vec<u8>, String>>(
    before: Seq<CommandResultView>,
    after: Seq<CommandResultView>,
    r: Result<TransmitResult, Error>,
    handle: Option<C>,
    apdu_hex: Seq<char>,
    send: F,
) -> bool {
    match parse_hex_spec(apdu_hex) {
        None => r matches Err(Error::InvalidHex(input)) && input@ == apdu_hex && after == before,
        Some(bytes) => if bytes.len() == 0 {
            r == Err::<TransmitResult, Error>(Error::EmptyCommand) && after == before
        } else if handle is None {
            r == Err::<TransmitResult, Error>(Error::NotConnected) && after == before
        } else {
            exists|apdu: Vec<u8>, timestamp: Seq<char>, outcome: Result<Vec<u8>, String>, duration_ms: u64|
                apdu@ == bytes && send.ensures((&handle->0, &apdu), outcome)
                    && is_timestamp_text(timestamp) && #[trigger] transmit_recorded(
                    before,
                    after,
                    r,
                    apdu@,
                    timestamp,
                    outcome,
                    duration_ms,
                )
        },
    }
}

/// What `control` promises. Data that is refused leaves the history as it
/// was; a command that is sent leaves the record of what `send` answered,
/// with a timestamp and a duration of which only the form is known.
pub open spec fn control_post<C, F: FnOnce(&C, u32, &Vec<u8>) -> Result<Vec<u8>, String>>(
    before: Seq<CommandResultView>,
    after: Seq<CommandResultView>,
    r: Result<ControlResult, Error>,
    handle: Option<C>,
    code: u32,
    data_hex: Seq<char>,
    send: F,
) -> bool {
    match parse_hex_spec(data_hex) {
        None => r matches Err(Error::InvalidHex(input)) && input@ == data_hex && after == before,
        Some(bytes) => if handle is None {
            r == Err::<ControlResult, Error>(Error::NotConnected) && after == before
        } else {
            exists|data: Vec<u8>, timestamp: Seq<char>, outcome: Result<Vec<u8>, String>, duration_ms: u64|
                data@ == bytes && send.ensures((&handle->0, code, &data), outcome)
                    && is_timestamp_text(timestamp) && #[trigger] control_recorded(
                    before,
                    after,
                    r,
                    code,
                    data@,
                    timestamp,
                    outcome,
                    duration_ms,
                )
        },
    }
}

/// `Instant::now` reads the clock; nothing is known of the instant.
pub assume_specification[ std::time::Instant::now ]() -> (t: std::time::Instant)
;

/// `Instant::elapsed` reads the clock again; nothing is known of the span.
pub assume_specification[ std::time::Instant::elapsed ](t: &std::time::Instant) -> (d:
    std::time::Duration)
;

/// `Duration::as_millis` gives a span in whole milliseconds.
pub assume_specification[ std::time::Duration::as_millis ](d: &std::time::Duration) -> (ms: u128)
;

/// `std::time::Instant`, a point of the monotonic clock.
#[verifier::external_type_specification]
#[verifier::external_body]
pub struct ExInstant(std::time::Instant);

/// The milliseconds since `started`, as the clock gives them and
/// `millis_in_u64` holds them. Nothing is known of the clock.
fn elapsed_ms(started: &std::time::Instant) -> u64 {
    let span = started.elapsed();
    millis_in_u64(span.as_millis())
}

/// A count of milliseconds in 64 bits: the count itself where it fits, and
/// its low 64 bits where it does not.
pub fn millis_in_u64(ms: u128) -> (r: u64)
    ensures
        r == ms % 0x1_0000_0000_0000_0000,
        ms <= u64::MAX ==> r == ms,
{
    (ms % 0x1_0000_0000_0000_0000) as u64
}

/// The executor of commands, with the history of what it attempted.
pub struct CommandExecutor {
    history: Vec<CommandResult>,
}

impl View for CommandExecutor {
    type V = Seq<CommandResultView>;

    closed spec fn view(&self) -> Seq<CommandResultView> {
        record_views(self.history@)
    }
}

/// Checks a transmit command before anything is sent. The text is decoded
/// first; text that does not decode is refused as invalid, text that decodes
/// to nothing as an empty command, and a decoded command without a live
/// connection as not connected, in that order.
pub fn prepare_transmit<X, C>(reader: &PcscReader<X, C>, apdu_hex: &str) -> (r: Result<
    Vec<u8>,
    Error,
>)
    ensures
        match parse_hex_spec(apdu_hex@) {
            None => r matches Err(Error::InvalidHex(input)) && input@ == apdu_hex@,
            Some(bytes) => if bytes.len() == 0 {
                r == Err::<Vec<u8>, Error>(Error::EmptyCommand)
            } else if reader.handle() is None {
                r == Err::<Vec<u8>, Error>(Error::NotConnected)
            } else {
                r matches Ok(apdu) && apdu@ == bytes
            },
        },
{
    let apdu = match parse_hex(apdu_hex) {
        Ok(apdu) => apdu,
        Err(e) => {
            return Err(e);
        },
    };
    if apdu.len() == 0 {
        return Err(Error::EmptyCommand);
    }
    if !reader.is_connected() {
        return Err(Error::NotConnected);
    }
    Ok(apdu)
}

/// Checks a control command before anything is sent. The data is optional:
/// text that holds nothing but whitespace and separators gives no bytes.
/// Data that does not decode is refused as invalid, and decoded data without
/// a live connection as not connected, in that order.
pub fn prepare_control<X, C>(reader: &PcscReader<X, C>, data_hex: &str) -> (r: Result<
    Vec<u8>,
    Error,
>)
    ensures
        match parse_hex_spec(data_hex@) {
            None => r matches Err(Error::InvalidHex(input)) && input@ == data_hex@,
            Some(bytes) => if reader.handle() is None {
                r == Err::<Vec<u8>, Error>(Error::NotConnected)
            } else {
                r matches Ok(data) && data@ == bytes
            },
        },
{
    let data = match parse_hex(data_hex) {
        Ok(data) => data,
        Err(e) => {
            return Err(e);
        },
    };
    if !reader.is_connected() {
        return Err(Error::NotConnected);
    }
    Ok(data)
}

/// The two status bytes of a response.
pub fn status_bytes(response: &Vec<u8>) -> (sw: (u8, u8))
    ensures
        sw.0 == status_sw1(response@),
        sw.1 == status_sw2(response@),
{
    let len = response.len();
    if len >= 2 {
        (response[len - 2], response[len - 1])
    } else {
        (0, 0)
    }
}

impl Default for CommandExecutor {
    fn default() -> (executor: Self)
        ensures
            executor@ == Seq::<CommandResultView>::empty(),
    {
        CommandExecutor::new()
    }
}

impl CommandExecutor {
    /// An executor with an empty history.
    pub fn new() -> (executor: Self)
        ensures
            executor@ == Seq::<CommandResultView>::empty(),
    {
        let executor = CommandExecutor { history: Vec::new() };
        assert(record_views(executor.history@) =~= Seq::<CommandResultView>::empty());
        executor
    }

    /// Executes a transmit command. The command is checked as
    /// `prepare_transmit` checks it, and a command that is refused leaves no
    /// record and never reaches `send`. Otherwise `send` is called once, with
    /// the live connection and the decoded bytes, the time it takes is
    /// measured around that call alone, and the attempt is recorded and
    /// classified as `record_transmit` does.
    pub fn transmit<X, C, F>(&mut self, reader: &PcscReader<X, C>, apdu_hex: &str, send: F) -> (r:
        Result<TransmitResult, Error>) where F: FnOnce(&C, &Vec<u8>) -> Result<Vec<u8>, String>
        requires
            forall|card: &C, apdu: &Vec<u8>| #[trigger] send.requires((card, apdu)),
        ensures
            transmit_post(old(self)@, final(self)@, r, reader.handle(), apdu_hex@, send),
    {
        let apdu = match prepare_transmit(reader, apdu_hex) {
            Ok(apdu) => apdu,
            Err(e) => {
                return Err(e);
            },
        };
        let card = match reader.card() {
            Some(card) => card,
            None => {
                return Err(Error::NotConnected);
            },
        };
        let timestamp = Timestamp::now();
        let started = std::time::Instant::now();
        let outcome = send(card, &apdu);
        let duration_ms = elapsed_ms(&started);
        let ghost sent = apdu;
        let ghost stamp = timestamp@;
        let r = self.record_transmit(apdu, timestamp, outcome, duration_ms);
        assert(transmit_recorded(old(self)@, self@, r, sent@, stamp, outcome, duration_ms));
        r
    }

    /// Executes a control command. The data is checked as `prepare_control`
    /// checks it, and data that is refused leaves no record and never
    /// reaches `send`. Otherwise `send` is called once, with the live
    /// connection, the code and the decoded data, the time it takes is
    /// measured around that call alone, and the attempt is recorded and
    /// classified as `record_control` does.
    pub fn control<X, C, F>(
        &mut self,
        reader: &PcscReader<X, C>,
        code: u32,
        data_hex: &str,
        send: F,
    ) -> (r: Result<ControlResult, Error>) where
        F: FnOnce(&C, u32, &Vec<u8>) -> Result<Vec<u8>, String>,

        requires
            forall|card: &C, data: &Vec<u8>| #[trigger] send.requires((card, code, data)),
        ensures
            control_post(old(self)@, final(self)@, r, reader.handle(), code, data_hex@, send),
    {
        let data = match prepare_control(reader, data_hex) {
            Ok(data) => data,
            Err(e) => {
                return Err(e);
            },
        };
        let card = match reader.card() {
            Some(card) => card,
            None => {
                return Err(Error::NotConnected);
            },
        };
        let timestamp = Timestamp::now();
        let started = std::time::Instant::now();
        let outcome = send(card, code, &data);
        let duration_ms = elapsed_ms(&started);
        let ghost sent = data;
        let ghost stamp = timestamp@;
        let r = self.record_control(code, data, timestamp, outcome, duration_ms);
        assert(control_recorded(old(self)@, self@, r, code, sent@, stamp, outcome, duration_ms));
        r
    }

    /// Records a transmit attempt and classifies it. Every attempt is
    /// recorded, whatever its outcome. A response gives the result with its
    /// two status bytes; a failure of the transport is handed on as a
    /// failed transmit with the transport's reason.
    pub fn record_transmit(
        &mut self,
        apdu: Vec<u8>,
        timestamp: Timestamp,
        outcome: Result<Vec<u8>, String>,
        duration_ms: u64,
    ) -> (r: Result<TransmitResult, Error>)
        ensures
            transmit_recorded(
                old(self)@,
                final(self)@,
                r,
                apdu@,
                timestamp@,
                outcome,
                duration_ms,
            ),
    {
        match outcome {
            Ok(response) => {
                let (sw1, sw2) = status_bytes(&response);
                let record = CommandResult {
                    timestamp,
                    command_type: CommandType::Transmit,
                    input: copy_bytes(&apdu),
                    output: copy_bytes(&response),
                    success: true,
                    error: None,
                    duration_ms,
                };
                self.add_to_history(record);
                Ok(TransmitResult { apdu, response, sw1, sw2, duration_ms })
            },
            Err(reason) => {
                let mut text = String::new();
                push_text(&mut text, "Transmit failed: ");
                push_text(&mut text, reason.as_str());
                let record = CommandResult {
                    timestamp,
                    command_type: CommandType::Transmit,
                    input: apdu,
                    output: Vec::new(),
                    success: false,
                    error: Some(text),
                    duration_ms,
                };
                self.add_to_history(record);
                Err(Error::TransmitFailed(reason))
            },
        }
    }

    /// Records a control attempt and classifies it. Every attempt is
    /// recorded, whatever its outcome. The reader's bytes are handed on as
    /// they came; a failure of the transport is handed on as a failed
    /// control command with the transport's reason.
    pub fn record_control(
        &mut self,
        code: u32,
        data: Vec<u8>,
        timestamp: Timestamp,
        outcome: Result<Vec<u8>, String>,
        duration_ms: u64,
    ) -> (r: Result<ControlResult, Error>)
        ensures
            control_recorded(
                old(self)@,
                final(self)@,
                r,
                code,
                data@,
                timestamp@,
                outcome,
                duration_ms,
            ),
    {
        match outcome {
            Ok(response) => {
                let record = CommandResult {
                    timestamp,
                    command_type: CommandType::Control { code },
                    input: copy_bytes(&data),
                    output: copy_bytes(&response),
                    success: true,
                    error: None,
                    duration_ms,
                };
                self.add_to_history(record);
                Ok(ControlResult { code, input: data, output: response, duration_ms })
            },
            Err(reason) => {
                let mut text = String::new();
                push_text(&mut text, "Control command failed: ");
                push_text(&mut text, reason.as_str());
                let record = CommandResult {
                    timestamp,
                    command_type: CommandType::Control { code },
                    input: data,
                    output: Vec::new(),
                    success: false,
                    error: Some(text),
                    duration_ms,
                };
                self.add_to_history(record);
                Err(Error::ControlFailed(reason))
            },
        }
    }

    /// The history, oldest record first.
    pub fn history(&self) -> (records: &Vec<CommandResult>)
        ensures
            record_views(records@) == self@,
    {
        &self.history
    }

    /// Empties the history.
    pub fn clear_history(&mut self)
        ensures
            final(self)@ == Seq::<CommandResultView>::empty(),
    {
        self.history.clear();
        assert(record_views(self.history@) =~= Seq::<CommandResultView>::empty());
    }

    /// Appends a record to the history.
    pub fn add_to_history(&mut self, result: CommandResult)
        ensures
            final(self)@ == old(self)@.push(result@),
    {
        assert(record_views(self.history@.push(result)) =~= record_views(self.history@).push(
            result@,
        ));
        self.history.push(result);
    }

    /// Appends records to the history, in their order.
    pub fn extend_history(&mut self, records: Vec<CommandResult>)
        ensures
            final(self)@ == old(self)@ + record_views(records@),
    {
        let mut records = records;
        assert(record_views(self.history@ + records@) =~= record_views(self.history@)
            + record_views(records@));
        self.history.append(&mut records);
    }

    /// The figures over the history: how many commands, how many of them
    /// succeeded and failed, and their mean duration rounded down.
    pub fn get_statistics(&self) -> (stats: CommandStatistics)
        ensures
            stats.total_commands == self@.len(),
            stats.successful_commands == count_successful(self@),
            stats.failed_commands == count_failed(self@),
            stats.successful_commands + stats.failed_commands == stats.total_commands,
            stats.average_duration_ms == average_duration(self@),
    {
        let total = self.history.len();
        let ghost views = record_views(self.history@);
        let mut successful: usize = 0;
        let mut sum: u128 = 0;
        let mut i: usize = 0;
        assert(views.take(0) =~= Seq::<CommandResultView>::empty());
        while i < total
            invariant
                total == self.history.len(),
                views == record_views(self.history@),
                i <= total,
                successful == count_successful(views.take(i as int)),
                successful <= i,
                sum == total_duration(views.take(i as int)),
                sum <= i * 0xFFFF_FFFF_FFFF_FFFF,
            decreases total - i,
        {
            proof {
                let next = views.take(i + 1);
                assert(next.drop_last() =~= views.take(i as int));
                assert(next.last() == self.history@[i as int]@);
                assert((i + 1) * 0xFFFF_FFFF_FFFF_FFFF == i * 0xFFFF_FFFF_FFFF_FFFF
                    + 0xFFFF_FFFF_FFFF_FFFF) by (nonlinear_arith);
                assert(i * 0xFFFF_FFFF_FFFF_FFFF <= 0xFFFF_FFFF_FFFF_FFFF
                    * 0xFFFF_FFFF_FFFF_FFFF) by (nonlinear_arith)
                    requires
                        i <= 0xFFFF_FFFF_FFFF_FFFF,
                ;
            }
            if self.history[i].success {
                successful += 1;
            }
            sum += self.history[i].duration_ms as u128;
            i += 1;
        }
        assert(views.take(total as int) =~= views);
        proof {
            lemma_successes_and_failures(views);
        }
        let average: u64 = if total == 0 {
            0
        } else {
            proof {
                assert(sum / (total as u128) <= 0xFFFF_FFFF_FFFF_FFFF) by (nonlinear_arith)
                    requires
                        sum <= total * 0xFFFF_FFFF_FFFF_FFFF,
                        total > 0,
                ;
            }
            (sum / (total as u128)) as u64
        };
        CommandStatistics {
            total_commands: total,
            successful_commands: successful,
            failed_commands: total - successful,
            average_duration_ms: average,
        }
    }
}

/// Successes and failures add up to the total: every record is counted
/// once, as the one or as the other.
pub proof fn lemma_successes_and_failures(history: Seq<CommandResultView>)
    ensures
        count_successful(history) + count_failed(history) == history.len(),
    decreases history.len(),
{
    if history.len() > 0 {
        lemma_successes_and_failures(history.drop_last());
    }
}

/// One more record makes the total one larger, whatever the record holds,
/// and adds its duration to the sum.
pub proof fn lemma_statistics_of_push(history: Seq<CommandResultView>, record: CommandResultView)
    ensures
        history.push(record).len() == history.len() + 1,
        count_successful(history.push(record)) == count_successful(history) + if record.success {
            1nat
        } else {
            0nat
        },
        count_failed(history.push(record)) == count_failed(history) + if record.success {
            0nat
        } else {
            1nat
        },
        total_duration(history.push(record)) == total_duration(history) + record.duration_ms,
{
    assert(history.push(record).drop_last() =~= history);
}

} // verus!
