//! Point emission: from a usage snapshot to the points of a time series.

use vstd::prelude::*;
use crate::measurement::Decimal;
use crate::telegram::{Reading, ReadingView, Slot, UsageData, UsageDataView};

verus! {

/// One point of a time series: the series it belongs to, its tags, its
/// value, and its time in whole seconds since 1970-01-01T00:00:00 UTC.
#[derive(Clone, Debug, PartialEq, Eq)]
pub struct DataPoint {
    pub series: String,
    pub energy_type: String,
    pub reading: String,
    pub unit: String,
    pub value: Decimal,
    pub time: Option<i64>,
}

/// A point as a mathematical value.
pub struct DataPointView {
    pub series: Seq<char>,
    pub energy_type: Seq<char>,
    pub reading: Seq<char>,
    pub unit: Seq<char>,
    pub value: Decimal,
    pub time: Option<i64>,
}

impl View for DataPoint {
    type V = DataPointView;

    open spec fn view(&self) -> DataPointView {
        DataPointView {
            series: self.series@,
            energy_type: self.energy_type@,
            reading: self.reading@,
            unit: self.unit@,
            value: self.value,
            time: self.time,
        }
    }
}

/// The point of one quantity: value and unit are those of the measurement,
/// the time is the instant of the timestamp, to the second. A reading of
/// the wrong kind in place of the measurement leaves the value zero and the
/// unit `Nothing`; one in place of the timestamp leaves the point without a
/// time.
pub open spec fn point_of(
    series: Seq<char>,
    energy_type: Seq<char>,
    reading: Seq<char>,
    value: ReadingView,
    timestamp: ReadingView,
) -> DataPointView {
    DataPointView {
        series,
        energy_type,
        reading,
        unit: match value {
            ReadingView::Measurement(m) => m.unit,
            ReadingView::Timestamp(_) => "Nothing"@,
        },
        value: match value {
            ReadingView::Measurement(m) => m.value,
            ReadingView::Timestamp(_) => Decimal { mantissa: 0, scale: 0 },
        },
        time: match timestamp {
            ReadingView::Timestamp(t) => Some(t.epoch_seconds),
            ReadingView::Measurement(_) => None,
        },
    }
}

/// Makes the point of one quantity.
pub fn create_point(
    name: &str,
    energy_type: &str,
    reading: &str,
    value: &Reading,
    timestamp: &Reading,
) -> (point: DataPoint)
    ensures
        point@ == point_of(name@, energy_type@, reading@, value@, timestamp@),
{
    let (amount, unit) = match value {
        Reading::Measurement(m) => (m.value, m.unit.clone()),
        Reading::Timestamp(_) => (Decimal { mantissa: 0, scale: 0 }, "Nothing".to_owned()),
    };
    let time = match timestamp {
        Reading::Timestamp(t) => Some(t.epoch_seconds),
        Reading::Measurement(_) => None,
    };
    DataPoint {
        series: name.to_owned(),
        energy_type: energy_type.to_owned(),
        reading: reading.to_owned(),
        unit,
        value: amount,
        time,
    }
}

/// The points of a snapshot: one for each of its nine quantities, the gas
/// volume at the gas timestamp and the others at the electricity timestamp.
pub open spec fn points_of(data: UsageDataView) -> Seq<DataPointView> {
    seq![
        point_of(
            "dsmr"@,
            "electricity"@,
            "low_tariff"@,
            data.electricity_reading_low_tariff,
            data.electricity_timestamp,
        ),
        point_of(
            "dsmr"@,
            "electricity"@,
            "normal_tariff"@,
            data.electricity_reading_normal_tariff,
            data.electricity_timestamp,
        ),
        point_of(
            "dsmr"@,
            "electricity"@,
            "returned_reading_low_tariff"@,
            data.electricity_returned_reading_low_tariff,
            data.electricity_timestamp,
        ),
        point_of(
            "dsmr"@,
            "electricity"@,
            "returned_reading_normal_tariff"@,
            data.electricity_returned_reading_normal_tariff,
            data.electricity_timestamp,
        ),
        point_of(
            "dsmr"@,
            "electricity"@,
            "receiving"@,
            data.power_receiving,
            data.electricity_timestamp,
        ),
        point_of(
            "dsmr"@,
            "electricity"@,
            "returning"@,
            data.power_returning,
            data.electricity_timestamp,
        ),
        point_of("dsmr"@, "gas"@, "receiving"@, data.gas_reading, data.gas_timestamp),
        point_of("dsmr"@, "electricity"@, "voltage"@, data.voltage, data.electricity_timestamp),
        point_of("dsmr"@, "electricity"@, "current"@, data.current, data.electricity_timestamp),
    ]
}

/// A vector of points as a mathematical value.
pub open spec fn points_view(points: Seq<DataPoint>) -> Seq<DataPointView> {
    points.map_values(|p: DataPoint| p@)
}

/// Maps a snapshot to its points.
pub fn usage_to_points(data: &UsageData) -> (points: Vec<DataPoint>)
    ensures
        points_view(points@) == points_of(data@),
{
    let mut points: Vec<DataPoint> = Vec::new();
    points.push(
        create_point(
            "dsmr",
            "electricity",
            "low_tariff",
            &data.electricity_reading_low_tariff,
            &data.electricity_timestamp,
        ),
    );
    points.push(
        create_point(
            "dsmr",
            "electricity",
            "normal_tariff",
            &data.electricity_reading_normal_tariff,
            &data.electricity_timestamp,
        ),
    );
    points.push(
        create_point(
            "dsmr",
            "electricity",
            "returned_reading_low_tariff",
            &data.electricity_returned_reading_low_tariff,
            &data.electricity_timestamp,
        ),
    );
    points.push(
        create_point(
            "dsmr",
            "electricity",
            "returned_reading_normal_tariff",
            &data.electricity_returned_reading_normal_tariff,
            &data.electricity_timestamp,
        ),
    );
    points.push(
        create_point(
            "dsmr",
            "electricity",
            "receiving",
            &data.power_receiving,
            &data.electricity_timestamp,
        ),
    );
    points.push(
        create_point(
            "dsmr",
            "electricity",
            "returning",
            &data.power_returning,
            &data.electricity_timestamp,
        ),
    );
    points.push(create_point("dsmr", "gas", "receiving", &data.gas_reading, &data.gas_timestamp));
    points.push(
        create_point("dsmr", "electricity", "voltage", &data.voltage, &data.electricity_timestamp),
    );
    points.push(
        create_point("dsmr", "electricity", "current", &data.current, &data.electricity_timestamp),
    );
    assert(points_view(points@) =~= points_of(data@));
    points
}

/// The field of the snapshot whose measurement the point at `index` shows.
pub open spec fn quantity_slot(index: int) -> Slot {
    if index == 0 {
        Slot::ElectricityReadingLowTariff
    } else if index == 1 {
        Slot::ElectricityReadingNormalTariff
    } else if index == 2 {
        Slot::ElectricityReturnedReadingLowTariff
    } else if index == 3 {
        Slot::ElectricityReturnedReadingNormalTariff
    } else if index == 4 {
        Slot::PowerReceiving
    } else if index == 5 {
        Slot::PowerReturning
    } else if index == 6 {
        Slot::GasReading
    } else if index == 7 {
        Slot::Voltage
    } else {
        Slot::Current
    }
}

/// A snapshot gives nine points, one for each of its measurements. Each is
/// of the series `dsmr`, shows the value and the unit of its measurement,
/// and stands at the timestamp of its domain: the gas volume at the gas
/// timestamp, every other at the electricity timestamp.
pub proof fn lemma_points_of_snapshot(data: UsageDataView)
    requires
        data.well_formed(),
    ensures
        points_of(data).len() == 9,
        forall|i: int|
            0 <= i < 9 ==> {
                let point = #[trigger] points_of(data)[i];
                let shown = data.get(quantity_slot(i));
                let stamp = if i == 6 {
                    data.gas_timestamp
                } else {
                    data.electricity_timestamp
                };
                &&& point.series == "dsmr"@
                &&& point.energy_type == (if i == 6 {
                    "gas"@
                } else {
                    "electricity"@
                })
                &&& shown is Measurement
                &&& point.value == shown->Measurement_0.value
                &&& point.unit == shown->Measurement_0.unit
                &&& stamp is Timestamp
                &&& point.time == Some(stamp->Timestamp_0.epoch_seconds)
            },
{
    assert(data.get(Slot::ElectricityTimestamp) is Timestamp);
    assert(data.get(Slot::GasTimestamp) is Timestamp);
    assert(!(data.get(Slot::ElectricityReadingLowTariff) is Timestamp));
    assert(!(data.get(Slot::ElectricityReadingNormalTariff) is Timestamp));
    assert(!(data.get(Slot::ElectricityReturnedReadingLowTariff) is Timestamp));
    assert(!(data.get(Slot::ElectricityReturnedReadingNormalTariff) is Timestamp));
    assert(!(data.get(Slot::PowerReceiving) is Timestamp));
    assert(!(data.get(Slot::PowerReturning) is Timestamp));
    assert(!(data.get(Slot::GasReading) is Timestamp));
    assert(!(data.get(Slot::Voltage) is Timestamp));
    assert(!(data.get(Slot::Current) is Timestamp));
}

} // verus!
