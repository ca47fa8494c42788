//! The telegram decoder: from the lines of one telegram to a usage snapshot.

use vstd::prelude::*;
use crate::dictionary::{lookup, role_of, Role};
use crate::error::DsmrError;
use crate::measurement::{
    lemma_measurement_needs_star, measurement_of, measurement_outcome, parse_measurement,
    Measurement, MeasurementView,
};
use crate::text::{find_char, index_of, lemma_index_of};
use crate::timestamp::{parse_date, timestamp_of, Timestamp};

verus! {

/// A decoded value of a telegram field.
#[derive(Clone, Debug, PartialEq, Eq)]
pub enum Reading {
    Measurement(Measurement),
    Timestamp(Timestamp),
}

/// A reading as a mathematical value.
pub enum ReadingView {
    Measurement(MeasurementView),
    Timestamp(Timestamp),
}

impl View for Reading {
    type V = ReadingView;

    open spec fn view(&self) -> ReadingView {
        match self {
            Reading::Measurement(m) => ReadingView::Measurement(m@),
            Reading::Timestamp(t) => ReadingView::Timestamp(*t),
        }
    }
}

/// Whether a line has the shape of a field: an identifier and a `(`.
pub open spec fn is_field_line(line: Seq<char>) -> bool {
    index_of(line, '(', 0) < line.len()
}

/// The text before the first `(`.
pub open spec fn identifier_of(line: Seq<char>) -> Seq<char> {
    line.take(index_of(line, '(', 0))
}

/// `text` without its trailing `)`, where it has one.
pub open spec fn without_close(text: Seq<char>) -> Seq<char> {
    if text.len() > 0 && text.last() == ')' {
        text.drop_last()
    } else {
        text
    }
}

/// The payload of the group that opens at index `open` of `line`: the text
/// after that `(`, up to the next `(` or the end of the line, without its
/// trailing `)`.
pub open spec fn payload_at(line: Seq<char>, open: int) -> Seq<char> {
    without_close(line.subrange(open + 1, index_of(line, '(', open + 1)))
}

/// The first payload of a field line.
pub open spec fn first_payload(line: Seq<char>) -> Seq<char> {
    payload_at(line, index_of(line, '(', 0))
}

/// The second payload of a field line; empty where the line has one group
/// only.
pub open spec fn second_payload(line: Seq<char>) -> Seq<char> {
    let second_open = index_of(line, '(', index_of(line, '(', 0) + 1);
    if second_open < line.len() {
        payload_at(line, second_open)
    } else {
        Seq::empty()
    }
}

/// The parts of a field line.
pub struct FieldLine<'a> {
    pub identifier: &'a str,
    pub first: &'a str,
    pub second: &'a str,
}

/// Cuts the payload out of the group that opens at index `open`.
fn payload_from<'a>(line: &'a str, open: usize) -> (r: &'a str)
    requires
        open < line@.len(),
    ensures
        r@ == payload_at(line@, open as int),
{
    let n = line.unicode_len();
    assert(open < n);
    let next = find_char(line, '(', open + 1);
    proof {
        lemma_index_of(line@, '(', open + 1);
    }
    if next > open + 1 && line.get_char(next - 1) == ')' {
        let r = line.substring_char(open + 1, next - 1);
        assert(r@ =~= payload_at(line@, open as int));
        r
    } else {
        let r = line.substring_char(open + 1, next);
        assert(r@ =~= payload_at(line@, open as int));
        r
    }
}

/// Splits a line into its identifier and its first two payloads. `None`
/// where the line is no field line.
pub fn split_line<'a>(line: &'a str) -> (r: Option<FieldLine<'a>>)
    ensures
        (r is Some) == is_field_line(line@),
        r matches Some(parts) ==> {
            &&& parts.identifier@ == identifier_of(line@)
            &&& parts.first@ == first_payload(line@)
            &&& parts.second@ == second_payload(line@)
        },
{
    let n = line.unicode_len();
    let open = find_char(line, '(', 0);
    proof {
        lemma_index_of(line@, '(', 0);
    }
    if open >= n {
        return None;
    }
    let identifier = line.substring_char(0, open);
    assert(identifier@ =~= identifier_of(line@));
    let first = payload_from(line, open);
    let second_open = find_char(line, '(', open + 1);
    proof {
        lemma_index_of(line@, '(', open + 1);
    }
    let second = if second_open < n {
        payload_from(line, second_open)
    } else {
        let r = line.substring_char(n, n);
        assert(r@ =~= Seq::<char>::empty());
        r
    };
    Some(FieldLine { identifier, first, second })
}

/// What one line of a telegram holds for the snapshot. A field that the
/// line does not carry is `None`; one that it carries is the outcome of its
/// decoder, so that a malformed field can be reported.
#[derive(Clone, Debug, PartialEq, Eq)]
pub struct LineFields {
    pub role: Role,
    pub timestamp: Option<Result<Timestamp, DsmrError>>,
    pub measurement: Option<Result<Measurement, DsmrError>>,
}

/// The fields of a line as a mathematical value.
pub struct LineFieldsView {
    pub role: Role,
    pub timestamp: Option<Result<Timestamp, DsmrError>>,
    pub measurement: Option<Result<MeasurementView, DsmrError>>,
}

impl View for LineFields {
    type V = LineFieldsView;

    open spec fn view(&self) -> LineFieldsView {
        LineFieldsView {
            role: self.role,
            timestamp: self.timestamp,
            measurement: match self.measurement {
                Some(outcome) => Some(measurement_outcome(outcome)),
                None => None,
            },
        }
    }
}

/// Whether a payload holds the separator of number and unit.
pub open spec fn has_unit(payload: Seq<char>) -> bool {
    index_of(payload, '*', 0) < payload.len()
}

/// What the decoder reads from one line:
/// - a line without `(`, or with an identifier that the dictionary does not
///   list, holds nothing;
/// - the electricity timestamp holds the timestamp of its first payload;
/// - the gas reading holds the timestamp of its first payload and the
///   measurement of its second;
/// - every other role holds the measurement of its first payload where that
///   payload has a `*`, and nothing where it has none.
pub open spec fn line_fields(line: Seq<char>) -> LineFieldsView {
    let role = if is_field_line(line) {
        role_of(identifier_of(line))
    } else {
        Role::Unrecognized
    };
    match role {
        Role::Unrecognized => LineFieldsView { role, timestamp: None, measurement: None },
        Role::ElectricityTimestamp => LineFieldsView {
            role,
            timestamp: Some(timestamp_of(first_payload(line))),
            measurement: None,
        },
        Role::GasReading => LineFieldsView {
            role,
            timestamp: Some(timestamp_of(first_payload(line))),
            measurement: Some(measurement_of(second_payload(line))),
        },
        _ => LineFieldsView {
            role,
            timestamp: None,
            measurement: if has_unit(first_payload(line)) {
                Some(measurement_of(first_payload(line)))
            } else {
                None
            },
        },
    }
}

/// Decodes one line of a telegram.
pub fn decode_line(line: &str) -> (r: LineFields)
    ensures
        r@ == line_fields(line@),
{
    let parts = match split_line(line) {
        Some(parts) => parts,
        None => {
            return LineFields { role: Role::Unrecognized, timestamp: None, measurement: None };
        },
    };
    let role = lookup(parts.identifier);
    match role {
        Role::Unrecognized => LineFields { role, timestamp: None, measurement: None },
        Role::ElectricityTimestamp => LineFields {
            role,
            timestamp: Some(parse_date(parts.first)),
            measurement: None,
        },
        Role::GasReading => LineFields {
            role,
            timestamp: Some(parse_date(parts.first)),
            measurement: Some(parse_measurement(parts.second)),
        },
        _ => {
            let n = parts.first.unicode_len();
            let star = find_char(parts.first, '*', 0);
            let measurement = if star < n {
                Some(parse_measurement(parts.first))
            } else {
                None
            };
            LineFields { role, timestamp: None, measurement }
        },
    }
}

/// The decoded result of one telegram. The two timestamps hold a
/// `Reading::Timestamp`, every other field a `Reading::Measurement`.
#[derive(Clone, Debug, PartialEq, Eq)]
pub struct UsageData {
    pub electricity_timestamp: Reading,
    pub power_receiving: Reading,
    pub power_returning: Reading,
    pub electricity_returned_reading_low_tariff: Reading,
    pub electricity_returned_reading_normal_tariff: Reading,
    pub electricity_reading_low_tariff: Reading,
    pub electricity_reading_normal_tariff: Reading,
    pub gas_reading: Reading,
    pub gas_timestamp: Reading,
    pub voltage: Reading,
    pub current: Reading,
}

/// A usage snapshot as a mathematical value.
pub struct UsageDataView {
    pub electricity_timestamp: ReadingView,
    pub power_receiving: ReadingView,
    pub power_returning: ReadingView,
    pub electricity_returned_reading_low_tariff: ReadingView,
    pub electricity_returned_reading_normal_tariff: ReadingView,
    pub electricity_reading_low_tariff: ReadingView,
    pub electricity_reading_normal_tariff: ReadingView,
    pub gas_reading: ReadingView,
    pub gas_timestamp: ReadingView,
    pub voltage: ReadingView,
    pub current: ReadingView,
}

impl View for UsageData {
    type V = UsageDataView;

    open spec fn view(&self) -> UsageDataView {
        UsageDataView {
            electricity_timestamp: self.electricity_timestamp@,
            power_receiving: self.power_receiving@,
            power_returning: self.power_returning@,
            electricity_returned_reading_low_tariff: self.electricity_returned_reading_low_tariff@,
            electricity_returned_reading_normal_tariff: self.electricity_returned_reading_normal_tariff@,
            electricity_reading_low_tariff: self.electricity_reading_low_tariff@,
            electricity_reading_normal_tariff: self.electricity_reading_normal_tariff@,
            gas_reading: self.gas_reading@,
            gas_timestamp: self.gas_timestamp@,
            voltage: self.voltage@,
            current: self.current@,
        }
    }
}

/// A field of the usage snapshot, in the order in which the snapshot lists
/// them.
#[derive(Clone, Copy, Debug, PartialEq, Eq, Structural)]
pub enum Slot {
    ElectricityTimestamp,
    PowerReceiving,
    PowerReturning,
    ElectricityReturnedReadingLowTariff,
    ElectricityReturnedReadingNormalTariff,
    ElectricityReadingLowTariff,
    ElectricityReadingNormalTariff,
    GasReading,
    GasTimestamp,
    Voltage,
    Current,
}

impl Slot {
    /// The role whose line fills this field.
    pub open spec fn role(self) -> Role {
        match self {
            Slot::ElectricityTimestamp => Role::ElectricityTimestamp,
            Slot::PowerReceiving => Role::PowerIn,
            Slot::PowerReturning => Role::PowerOut,
            Slot::ElectricityReturnedReadingLowTariff => Role::EnergyLowOut,
            Slot::ElectricityReturnedReadingNormalTariff => Role::EnergyNormalOut,
            Slot::ElectricityReadingLowTariff => Role::EnergyLowIn,
            Slot::ElectricityReadingNormalTariff => Role::EnergyNormalIn,
            Slot::GasReading => Role::GasReading,
            Slot::GasTimestamp => Role::GasReading,
            Slot::Voltage => Role::Voltage,
            Slot::Current => Role::Current,
        }
    }

    /// Whether this field holds an instant; the others hold a measurement.
    pub open spec fn holds_instant(self) -> bool {
        self == Slot::ElectricityTimestamp || self == Slot::GasTimestamp
    }
}

impl UsageDataView {
    /// The reading in a field.
    pub open spec fn get(self, slot: Slot) -> ReadingView {
        match slot {
            Slot::ElectricityTimestamp => self.electricity_timestamp,
            Slot::PowerReceiving => self.power_receiving,
            Slot::PowerReturning => self.power_returning,
            Slot::ElectricityReturnedReadingLowTariff => self.electricity_returned_reading_low_tariff,
            Slot::ElectricityReturnedReadingNormalTariff => self.electricity_returned_reading_normal_tariff,
            Slot::ElectricityReadingLowTariff => self.electricity_reading_low_tariff,
            Slot::ElectricityReadingNormalTariff => self.electricity_reading_normal_tariff,
            Slot::GasReading => self.gas_reading,
            Slot::GasTimestamp => self.gas_timestamp,
            Slot::Voltage => self.voltage,
            Slot::Current => self.current,
        }
    }

    /// Every field holds a reading of the kind of its role.
    pub open spec fn well_formed(self) -> bool {
        forall|slot: Slot| (#[trigger] self.get(slot) is Timestamp) == slot.holds_instant()
    }
}

/// The reading that a line has for a field of the snapshot: the decoded
/// value of the part of the line that belongs to the field. `None` where the
/// line is of another role, does not carry that part, or carries it
/// malformed.
pub open spec fn offer(fields: LineFieldsView, slot: Slot) -> Option<ReadingView> {
    if fields.role != slot.role() {
        None
    } else if slot.holds_instant() {
        match fields.timestamp {
            Some(Ok(t)) => Some(ReadingView::Timestamp(t)),
            _ => None,
        }
    } else {
        match fields.measurement {
            Some(Ok(m)) => Some(ReadingView::Measurement(m)),
            _ => None,
        }
    }
}

/// The reading that the lines of a telegram leave in a field: that of the
/// last line that has one for it.
pub open spec fn collected(lines: Seq<Seq<char>>, slot: Slot) -> Option<ReadingView>
    decreases lines.len(),
{
    if lines.len() == 0 {
        None
    } else {
        match offer(line_fields(lines.last()), slot) {
            Some(reading) => Some(reading),
            None => collected(lines.drop_last(), slot),
        }
    }
}

/// The fields of a snapshot while it is put together: what each holds, if
/// anything.
pub type Filled = spec_fn(Slot) -> Option<ReadingView>;

/// The first field, in the order of the snapshot, that is empty.
pub open spec fn first_empty(filled: Filled) -> Option<Slot> {
    if filled(Slot::ElectricityTimestamp) is None {
        Some(Slot::ElectricityTimestamp)
    } else if filled(Slot::PowerReceiving) is None {
        Some(Slot::PowerReceiving)
    } else if filled(Slot::PowerReturning) is None {
        Some(Slot::PowerReturning)
    } else if filled(Slot::ElectricityReturnedReadingLowTariff) is None {
        Some(Slot::ElectricityReturnedReadingLowTariff)
    } else if filled(Slot::ElectricityReturnedReadingNormalTariff) is None {
        Some(Slot::ElectricityReturnedReadingNormalTariff)
    } else if filled(Slot::ElectricityReadingLowTariff) is None {
        Some(Slot::ElectricityReadingLowTariff)
    } else if filled(Slot::ElectricityReadingNormalTariff) is None {
        Some(Slot::ElectricityReadingNormalTariff)
    } else if filled(Slot::GasReading) is None {
        Some(Slot::GasReading)
    } else if filled(Slot::GasTimestamp) is None {
        Some(Slot::GasTimestamp)
    } else if filled(Slot::Voltage) is None {
        Some(Slot::Voltage)
    } else if filled(Slot::Current) is None {
        Some(Slot::Current)
    } else {
        None
    }
}

/// The snapshot of the fields, or `IncompleteTelegram` with the role of the
/// first field that is empty.
pub open spec fn assemble(filled: Filled) -> Result<UsageDataView, DsmrError> {
    match first_empty(filled) {
        Some(slot) => Err(DsmrError::IncompleteTelegram(slot.role())),
        None => Ok(
            UsageDataView {
                electricity_timestamp: filled(Slot::ElectricityTimestamp)->0,
                power_receiving: filled(Slot::PowerReceiving)->0,
                power_returning: filled(Slot::PowerReturning)->0,
                electricity_returned_reading_low_tariff: filled(
                    Slot::ElectricityReturnedReadingLowTariff,
                )->0,
                electricity_returned_reading_normal_tariff: filled(
                    Slot::ElectricityReturnedReadingNormalTariff,
                )->0,
                electricity_reading_low_tariff: filled(Slot::ElectricityReadingLowTariff)->0,
                electricity_reading_normal_tariff: filled(Slot::ElectricityReadingNormalTariff)->0,
                gas_reading: filled(Slot::GasReading)->0,
                gas_timestamp: filled(Slot::GasTimestamp)->0,
                voltage: filled(Slot::Voltage)->0,
                current: filled(Slot::Current)->0,
            },
        ),
    }
}

/// The first field, in the order of the snapshot, that the lines of a
/// telegram leave empty.
pub open spec fn first_missing(lines: Seq<Seq<char>>) -> Option<Slot> {
    first_empty(|slot: Slot| collected(lines, slot))
}

/// The snapshot that a telegram decodes to: every field as the lines leave
/// it, or `IncompleteTelegram` with the role of the first field left empty.
pub open spec fn snapshot_of(lines: Seq<Seq<char>>) -> Result<UsageDataView, DsmrError> {
    assemble(|slot: Slot| collected(lines, slot))
}

/// The lines of a telegram as character sequences.
pub open spec fn lines_of(message: Seq<String>) -> Seq<Seq<char>> {
    message.map_values(|line: String| line@)
}

/// The outcome of the telegram decoder as a mathematical value.
pub open spec fn usage_outcome(r: Result<UsageData, DsmrError>) -> Result<UsageDataView, DsmrError> {
    match r {
        Ok(usage) => Ok(usage@),
        Err(e) => Err(e),
    }
}

/// The fields of a snapshot while its telegram is read.
struct Slots {
    electricity_timestamp: Option<Timestamp>,
    power_receiving: Option<Measurement>,
    power_returning: Option<Measurement>,
    electricity_returned_reading_low_tariff: Option<Measurement>,
    electricity_returned_reading_normal_tariff: Option<Measurement>,
    electricity_reading_low_tariff: Option<Measurement>,
    electricity_reading_normal_tariff: Option<Measurement>,
    gas_reading: Option<Measurement>,
    gas_timestamp: Option<Timestamp>,
    voltage: Option<Measurement>,
    current: Option<Measurement>,
}

spec fn instant_reading(t: Option<Timestamp>) -> Option<ReadingView> {
    match t {
        Some(t) => Some(ReadingView::Timestamp(t)),
        None => None,
    }
}

spec fn quantity_reading(m: Option<Measurement>) -> Option<ReadingView> {
    match m {
        Some(m) => Some(ReadingView::Measurement(m@)),
        None => None,
    }
}

impl Slots {
    spec fn get(self, slot: Slot) -> Option<ReadingView> {
        match slot {
            Slot::ElectricityTimestamp => instant_reading(self.electricity_timestamp),
            Slot::PowerReceiving => quantity_reading(self.power_receiving),
            Slot::PowerReturning => quantity_reading(self.power_returning),
            Slot::ElectricityReturnedReadingLowTariff => quantity_reading(
                self.electricity_returned_reading_low_tariff,
            ),
            Slot::ElectricityReturnedReadingNormalTariff => quantity_reading(
                self.electricity_returned_reading_normal_tariff,
            ),
            Slot::ElectricityReadingLowTariff => quantity_reading(
                self.electricity_reading_low_tariff,
            ),
            Slot::ElectricityReadingNormalTariff => quantity_reading(
                self.electricity_reading_normal_tariff,
            ),
            Slot::GasReading => quantity_reading(self.gas_reading),
            Slot::GasTimestamp => instant_reading(self.gas_timestamp),
            Slot::Voltage => quantity_reading(self.voltage),
            Slot::Current => quantity_reading(self.current),
        }
    }

    fn empty() -> (r: Slots)
        ensures
            forall|slot: Slot| r.get(slot) is None,
    {
        Slots {
            electricity_timestamp: None,
            power_receiving: None,
            power_returning: None,
            electricity_returned_reading_low_tariff: None,
            electricity_returned_reading_normal_tariff: None,
            electricity_reading_low_tariff: None,
            electricity_reading_normal_tariff: None,
            gas_reading: None,
            gas_timestamp: None,
            voltage: None,
            current: None,
        }
    }

    /// Takes over what a line has for the snapshot; a field for which the
    /// line has nothing stays as it is.
    fn absorb(self, fields: LineFields) -> (r: Slots)
        ensures
            forall|slot: Slot|
                #[trigger] r.get(slot) == match offer(fields@, slot) {
                    Some(reading) => Some(reading),
                    None => self.get(slot),
                },
    {
        let mut slots = self;
        let instant = match fields.timestamp {
            Some(Ok(t)) => Some(t),
            _ => None,
        };
        let quantity = match fields.measurement {
            Some(Ok(m)) => Some(m),
            _ => None,
        };
        match fields.role {
            Role::ElectricityTimestamp => {
                if instant.is_some() {
                    slots.electricity_timestamp = instant;
                }
            },
            Role::PowerIn => {
                if quantity.is_some() {
                    slots.power_receiving = quantity;
                }
            },
            Role::PowerOut => {
                if quantity.is_some() {
                    slots.power_returning = quantity;
                }
            },
            Role::EnergyLowIn => {
                if quantity.is_some() {
                    slots.electricity_reading_low_tariff = quantity;
                }
            },
            Role::EnergyNormalIn => {
                if quantity.is_some() {
                    slots.electricity_reading_normal_tariff = quantity;
                }
            },
            Role::EnergyLowOut => {
                if quantity.is_some() {
                    slots.electricity_returned_reading_low_tariff = quantity;
                }
            },
            Role::EnergyNormalOut => {
                if quantity.is_some() {
                    slots.electricity_returned_reading_normal_tariff = quantity;
                }
            },
            Role::Voltage => {
                if quantity.is_some() {
                    slots.voltage = quantity;
                }
            },
            Role::Current => {
                if quantity.is_some() {
                    slots.current = quantity;
                }
            },
            Role::GasReading => {
                if instant.is_some() {
                    slots.gas_timestamp = instant;
                }
                if quantity.is_some() {
                    slots.gas_reading = quantity;
                }
            },
            Role::Unrecognized => {},
        }
        slots
    }
}

/// A field of a telegram that was dropped because its payload is malformed.
#[derive(Clone, Copy, Debug, PartialEq, Eq, Structural)]
pub struct FieldFailure {
    /// The index of the line in the telegram.
    pub line: usize,
    /// The role of the line.
    pub role: Role,
    /// `MalformedTimestamp` or `MalformedMeasurement`.
    pub error: DsmrError,
}

/// The fields that a line carries malformed: its timestamp first, then its
/// measurement.
pub open spec fn failures_in(fields: LineFieldsView, line: int) -> Seq<FieldFailure> {
    let stamp = match fields.timestamp {
        Some(Err(error)) => seq![FieldFailure { line: line as usize, role: fields.role, error }],
        _ => Seq::empty(),
    };
    let quantity = match fields.measurement {
        Some(Err(error)) => seq![FieldFailure { line: line as usize, role: fields.role, error }],
        _ => Seq::empty(),
    };
    stamp + quantity
}

/// The fields that the lines of a telegram carry malformed, in the order of
/// the lines.
pub open spec fn dropped_fields(lines: Seq<Seq<char>>) -> Seq<FieldFailure>
    decreases lines.len(),
{
    if lines.len() == 0 {
        Seq::empty()
    } else {
        dropped_fields(lines.drop_last()) + failures_in(
            line_fields(lines.last()),
            lines.len() - 1,
        )
    }
}

/// What the decoder makes of one telegram: the snapshot or the reason why
/// there is none, and the fields that it dropped on the way.
#[derive(Debug, PartialEq, Eq)]
pub struct Decoded {
    pub snapshot: Result<UsageData, DsmrError>,
    pub dropped: Vec<FieldFailure>,
}

impl Slots {
    /// Makes the snapshot, or names the role of the first field that is
    /// empty.
    fn finish(self) -> (r: Result<UsageData, DsmrError>)
        ensures
            usage_outcome(r) == assemble(|slot: Slot| self.get(slot)),
            r matches Ok(usage) ==> usage@.well_formed(),
    {
        let electricity_timestamp = match self.electricity_timestamp {
            Some(t) => Reading::Timestamp(t),
            None => {
                return Err(DsmrError::IncompleteTelegram(Role::ElectricityTimestamp));
            },
        };
        let power_receiving = match self.power_receiving {
            Some(m) => Reading::Measurement(m),
            None => {
                return Err(DsmrError::IncompleteTelegram(Role::PowerIn));
            },
        };
        let power_returning = match self.power_returning {
            Some(m) => Reading::Measurement(m),
            None => {
                return Err(DsmrError::IncompleteTelegram(Role::PowerOut));
            },
        };
        let electricity_returned_reading_low_tariff =
            match self.electricity_returned_reading_low_tariff {
            Some(m) => Reading::Measurement(m),
            None => {
                return Err(DsmrError::IncompleteTelegram(Role::EnergyLowOut));
            },
        };
        let electricity_returned_reading_normal_tariff =
            match self.electricity_returned_reading_normal_tariff {
            Some(m) => Reading::Measurement(m),
            None => {
                return Err(DsmrError::IncompleteTelegram(Role::EnergyNormalOut));
            },
        };
        let electricity_reading_low_tariff = match self.electricity_reading_low_tariff {
            Some(m) => Reading::Measurement(m),
            None => {
                return Err(DsmrError::IncompleteTelegram(Role::EnergyLowIn));
            },
        };
        let electricity_reading_normal_tariff = match self.electricity_reading_normal_tariff {
            Some(m) => Reading::Measurement(m),
            None => {
                return Err(DsmrError::IncompleteTelegram(Role::EnergyNormalIn));
            },
        };
        let gas_reading = match self.gas_reading {
            Some(m) => Reading::Measurement(m),
            None => {
                return Err(DsmrError::IncompleteTelegram(Role::GasReading));
            },
        };
        let gas_timestamp = match self.gas_timestamp {
            Some(t) => Reading::Timestamp(t),
            None => {
                return Err(DsmrError::IncompleteTelegram(Role::GasReading));
            },
        };
        let voltage = match self.voltage {
            Some(m) => Reading::Measurement(m),
            None => {
                return Err(DsmrError::IncompleteTelegram(Role::Voltage));
            },
        };
        let current = match self.current {
            Some(m) => Reading::Measurement(m),
            None => {
                return Err(DsmrError::IncompleteTelegram(Role::Current));
            },
        };
        Ok(
            UsageData {
                electricity_timestamp,
                power_receiving,
                power_returning,
                electricity_returned_reading_low_tariff,
                electricity_returned_reading_normal_tariff,
                electricity_reading_low_tariff,
                electricity_reading_normal_tariff,
                gas_reading,
                gas_timestamp,
                voltage,
                current,
            },
        )

    }
}

/// Decodes the lines of one telegram, and lists the fields that were
/// dropped as malformed.
pub fn decode_telegram(message: &Vec<String>) -> (r: Decoded)
    ensures
        usage_outcome(r.snapshot) == snapshot_of(lines_of(message@)),
        r.snapshot matches Ok(usage) ==> usage@.well_formed(),
        r.dropped@ == dropped_fields(lines_of(message@)),
{
    let ghost lines = lines_of(message@);
    let mut slots = Slots::empty();
    let mut dropped: Vec<FieldFailure> = Vec::new();
    let mut i: usize = 0;
    while i < message.len()
        invariant
            i <= message.len(),
            lines == lines_of(message@),
            forall|slot: Slot| #[trigger] slots.get(slot) == collected(lines.take(i as int), slot),
            dropped@ == dropped_fields(lines.take(i as int)),
        decreases message.len() - i,
    {
        let fields = decode_line(message[i].as_str());
        proof {
            assert(lines.take(i + 1).drop_last() =~= lines.take(i as int));
            assert(lines.take(i + 1).last() == message[i as int]@);
        }
        let ghost before = dropped@;
        match fields.timestamp {
            Some(Err(error)) => {
                dropped.push(FieldFailure { line: i, role: fields.role, error });
            },
            _ => {},
        }
        match &fields.measurement {
            Some(Err(error)) => {
                dropped.push(FieldFailure { line: i, role: fields.role, error: *error });
            },
            _ => {},
        }
        assert(dropped@ =~= before + failures_in(fields@, i as int));
        slots = slots.absorb(fields);
        i += 1;
    }
    proof {
        assert(lines.take(i as int) =~= lines);
        assert(slots.get(Slot::ElectricityTimestamp) == collected(lines, Slot::ElectricityTimestamp));
        assert(slots.get(Slot::PowerReceiving) == collected(lines, Slot::PowerReceiving));
        assert(slots.get(Slot::PowerReturning) == collected(lines, Slot::PowerReturning));
        assert(slots.get(Slot::ElectricityReturnedReadingLowTariff) == collected(
            lines,
            Slot::ElectricityReturnedReadingLowTariff,
        ));
        assert(slots.get(Slot::ElectricityReturnedReadingNormalTariff) == collected(
            lines,
            Slot::ElectricityReturnedReadingNormalTariff,
        ));
        assert(slots.get(Slot::ElectricityReadingLowTariff) == collected(
            lines,
            Slot::ElectricityReadingLowTariff,
        ));
        assert(slots.get(Slot::ElectricityReadingNormalTariff) == collected(
            lines,
            Slot::ElectricityReadingNormalTariff,
        ));
        assert(slots.get(Slot::GasReading) == collected(lines, Slot::GasReading));
        assert(slots.get(Slot::GasTimestamp) == collected(lines, Slot::GasTimestamp));
        assert(slots.get(Slot::Voltage) == collected(lines, Slot::Voltage));
        assert(slots.get(Slot::Current) == collected(lines, Slot::Current));
    }
    let snapshot = slots.finish();
    Decoded { snapshot, dropped }
}

/// Decodes the lines of one telegram into a usage snapshot. Fails as a whole
/// where a field of the snapshot stays empty.
pub fn deserialise_p1_message(message: Vec<String>) -> (r: Result<UsageData, DsmrError>)
    ensures
        usage_outcome(r) == snapshot_of(lines_of(message@)),
        r matches Ok(usage) ==> usage@.well_formed(),
{
    decode_telegram(&message).snapshot
}

/// The reading that one line has for a field.
pub open spec fn offered(line: Seq<char>, slot: Slot) -> Option<ReadingView> {
    offer(line_fields(line), slot)
}

/// No two lines have different readings for `slot`.
pub open spec fn agreeing(lines: Seq<Seq<char>>, slot: Slot) -> bool {
    forall|i: int, j: int|
        0 <= i < lines.len() && 0 <= j < lines.len() && (#[trigger] offered(lines[i], slot)) is Some
            && (#[trigger] offered(lines[j], slot)) is Some ==> offered(lines[i], slot) == offered(
            lines[j],
            slot,
        )
}

/// A field stays empty exactly where no line has a reading for it, and a
/// field that is filled holds the reading of one of the lines.
pub proof fn lemma_collected_from_lines(lines: Seq<Seq<char>>, slot: Slot)
    ensures
        collected(lines, slot) is None <==> forall|i: int|
            0 <= i < lines.len() ==> (#[trigger] offered(lines[i], slot)) is None,
        collected(lines, slot) is Some ==> exists|i: int|
            0 <= i < lines.len() && #[trigger] offered(lines[i], slot) == collected(lines, slot),
    decreases lines.len(),
{
    if lines.len() > 0 {
        let rest = lines.drop_last();
        let last = lines.len() - 1;
        lemma_collected_from_lines(rest, slot);
        assert(forall|i: int| 0 <= i < rest.len() ==> rest[i] == lines[i]);
        if offered(lines.last(), slot) is Some {
            assert(offered(lines[last], slot) == collected(lines, slot));
        } else if collected(rest, slot) is Some {
            let i = choose|i: int|
                0 <= i < rest.len() && #[trigger] offered(rest[i], slot) == collected(rest, slot);
            assert(offered(lines[i], slot) == collected(lines, slot));
        } else {
            assert forall|i: int| 0 <= i < lines.len() implies (#[trigger] offered(
                lines[i],
                slot,
            )) is None by {
                if i < last {
                    assert(offered(rest[i], slot) is None);
                }
            }
        }
    }
}

/// Where the lines agree on a field, the field holds the reading of any line
/// that has one.
pub proof fn lemma_collected_agreed(lines: Seq<Seq<char>>, slot: Slot, i: int)
    requires
        agreeing(lines, slot),
        0 <= i < lines.len(),
        offered(lines[i], slot) is Some,
    ensures
        collected(lines, slot) == offered(lines[i], slot),
{
    lemma_collected_from_lines(lines, slot);
    let j = choose|j: int|
        0 <= j < lines.len() && #[trigger] offered(lines[j], slot) == collected(lines, slot);
    assert(offered(lines[j], slot) is Some);
}

/// Two telegrams that hold the same lines, in whatever order, leave the same
/// reading in a field on which the lines agree.
proof fn lemma_collected_rearranged(a: Seq<Seq<char>>, b: Seq<Seq<char>>, slot: Slot)
    requires
        a.to_multiset() == b.to_multiset(),
        agreeing(a, slot),
    ensures
        collected(a, slot) == collected(b, slot),
{
    assert forall|x: Seq<char>| a.contains(x) <==> b.contains(x) by {
        vstd::seq_lib::to_multiset_contains(a, x);
        vstd::seq_lib::to_multiset_contains(b, x);
    }
    assert(agreeing(b, slot)) by {
        assert forall|i: int, j: int|
            0 <= i < b.len() && 0 <= j < b.len() && (#[trigger] offered(b[i], slot)) is Some && (
            #[trigger] offered(b[j], slot)) is Some implies offered(b[i], slot) == offered(
            b[j],
            slot,
        ) by {
            assert(b.contains(b[i]) && b.contains(b[j]));
            let k = choose|k: int| 0 <= k < a.len() && a[k] == b[i];
            let l = choose|l: int| 0 <= l < a.len() && a[l] == b[j];
            assert(offered(a[k], slot) == offered(a[l], slot));
        }
    }
    lemma_collected_from_lines(a, slot);
    lemma_collected_from_lines(b, slot);
    if collected(a, slot) is Some {
        let i = choose|i: int|
            0 <= i < a.len() && #[trigger] offered(a[i], slot) == collected(a, slot);
        assert(a.contains(a[i]));
        let j = choose|j: int| 0 <= j < b.len() && b[j] == a[i];
        lemma_collected_agreed(b, slot, j);
    } else {
        assert forall|j: int| 0 <= j < b.len() implies (#[trigger] offered(b[j], slot)) is None by {
            assert(b.contains(b[j]));
            let i = choose|i: int| 0 <= i < a.len() && a[i] == b[j];
            assert(offered(a[i], slot) is None);
        }
    }
}

/// Order independence: a telegram decodes to the same snapshot, or to the
/// same failure, in whatever order its lines stand, provided that no two of
/// its lines have different readings for one field.
pub proof fn lemma_order_independent(a: Seq<Seq<char>>, b: Seq<Seq<char>>)
    requires
        a.to_multiset() == b.to_multiset(),
        forall|slot: Slot| agreeing(a, slot),
    ensures
        snapshot_of(a) == snapshot_of(b),
{
    lemma_collected_rearranged(a, b, Slot::ElectricityTimestamp);
    lemma_collected_rearranged(a, b, Slot::PowerReceiving);
    lemma_collected_rearranged(a, b, Slot::PowerReturning);
    lemma_collected_rearranged(a, b, Slot::ElectricityReturnedReadingLowTariff);
    lemma_collected_rearranged(a, b, Slot::ElectricityReturnedReadingNormalTariff);
    lemma_collected_rearranged(a, b, Slot::ElectricityReadingLowTariff);
    lemma_collected_rearranged(a, b, Slot::ElectricityReadingNormalTariff);
    lemma_collected_rearranged(a, b, Slot::GasReading);
    lemma_collected_rearranged(a, b, Slot::GasTimestamp);
    lemma_collected_rearranged(a, b, Slot::Voltage);
    lemma_collected_rearranged(a, b, Slot::Current);
}

/// A snapshot is produced exactly where every field is filled, and a
/// failure of the decoder is always `IncompleteTelegram`.
pub proof fn lemma_snapshot_complete(lines: Seq<Seq<char>>)
    ensures
        snapshot_of(lines) is Ok <==> forall|slot: Slot| (#[trigger] collected(lines, slot)) is Some,
        snapshot_of(lines) is Err ==> snapshot_of(lines)->Err_0 is IncompleteTelegram,
        snapshot_of(lines) matches Ok(usage) ==> forall|slot: Slot|
            Some(#[trigger] usage.get(slot)) == collected(lines, slot),
{
    if first_missing(lines) is None {
        assert forall|slot: Slot| (#[trigger] collected(lines, slot)) is Some by {
            match slot {
                Slot::ElectricityTimestamp => {},
                Slot::PowerReceiving => {},
                Slot::PowerReturning => {},
                Slot::ElectricityReturnedReadingLowTariff => {},
                Slot::ElectricityReturnedReadingNormalTariff => {},
                Slot::ElectricityReadingLowTariff => {},
                Slot::ElectricityReadingNormalTariff => {},
                Slot::GasReading => {},
                Slot::GasTimestamp => {},
                Slot::Voltage => {},
                Slot::Current => {},
            }
        }
    } else {
        assert(collected(lines, first_missing(lines)->0) is None);
    }
}

/// A telegram in which no line has a reading for some field of the snapshot
/// fails with `IncompleteTelegram`: no snapshot is produced.
pub proof fn lemma_missing_field_rejected(lines: Seq<Seq<char>>, slot: Slot)
    requires
        forall|i: int| 0 <= i < lines.len() ==> (#[trigger] offered(lines[i], slot)) is None,
    ensures
        snapshot_of(lines) is Err,
        snapshot_of(lines)->Err_0 is IncompleteTelegram,
{
    lemma_collected_from_lines(lines, slot);
    lemma_snapshot_complete(lines);
}

/// The policy on a malformed gas field: a gas line whose measurement part has
/// no `*` has no gas reading, but still has its timestamp and touches no
/// other field; and a telegram all of whose gas lines are so is dropped as a
/// whole, with the gas reading named as missing where every field before it
/// is filled.
pub proof fn lemma_malformed_gas_drops_snapshot(lines: Seq<Seq<char>>)
    requires
        forall|i: int|
            0 <= i < lines.len() && (#[trigger] line_fields(lines[i])).role == Role::GasReading
                ==> !has_unit(second_payload(lines[i])),
    ensures
        forall|i: int, slot: Slot|
            0 <= i < lines.len() && line_fields(lines[i]).role == Role::GasReading
                ==> #[trigger] offered(lines[i], slot) == (if slot == Slot::GasTimestamp {
                match timestamp_of(first_payload(lines[i])) {
                    Ok(t) => Some(ReadingView::Timestamp(t)),
                    Err(_) => None,
                }
            } else {
                None
            }),
        collected(lines, Slot::GasReading) is None,
        snapshot_of(lines) is Err,
        snapshot_of(lines)->Err_0 is IncompleteTelegram,
        first_missing(lines) == Some(Slot::GasReading) ==> snapshot_of(lines) == Err::<
            UsageDataView,
            DsmrError,
        >(DsmrError::IncompleteTelegram(Role::GasReading)),
{
    assert forall|i: int| 0 <= i < lines.len() implies (#[trigger] offered(
        lines[i],
        Slot::GasReading,
    )) is None by {
        if line_fields(lines[i]).role == Role::GasReading {
            lemma_has_unit(second_payload(lines[i]));
            lemma_measurement_needs_star(second_payload(lines[i]));
        }
    }
    assert forall|i: int, slot: Slot|
        0 <= i < lines.len() && line_fields(lines[i]).role
            == Role::GasReading implies #[trigger] offered(lines[i], slot) == (if slot
        == Slot::GasTimestamp {
        match timestamp_of(first_payload(lines[i])) {
            Ok(t) => Some(ReadingView::Timestamp(t)),
            Err(_) => None,
        }
    } else {
        None
    }) by {
        assert(offered(lines[i], Slot::GasReading) is None);
    }
    lemma_missing_field_rejected(lines, Slot::GasReading);
    lemma_collected_from_lines(lines, Slot::GasReading);
}

/// A payload has a unit separator exactly where it holds a `*`.
pub proof fn lemma_has_unit(payload: Seq<char>)
    ensures
        has_unit(payload) == payload.contains('*'),
{
    lemma_index_of(payload, '*', 0);
    let star = index_of(payload, '*', 0);
    if star < payload.len() {
        assert(payload[star] == '*');
    }
}

} // verus!
