//! What the server stores for a reading: one InfluxDB data point of the
//! measurement `co2`, tagged with the room, with the two sensor values as
//! integer fields.
use vstd::prelude::*;
use influxdb2::models::{DataPoint, WriteDataPoint};

verus! {

/// A reading as the mote posts it to `/api/data`.
#[derive(Clone, Debug, PartialEq, Eq)]
pub struct DataRequest {
    /// The room the mote stands in.
    pub room: String,
    /// The equivalent CO2 level, in ppm.
    pub eco2: u16,
    /// The total volatile organic compounds, in ppb.
    pub tvoc: u16,
}

/// The line protocol text of a data point with one tag and two integer fields,
/// as InfluxDB's client writes it.
pub uninterp spec fn influx_line(
    measurement: Seq<char>,
    tag_key: Seq<char>,
    tag_value: Seq<char>,
    field_a: Seq<char>,
    value_a: i64,
    field_b: Seq<char>,
    value_b: i64,
) -> Seq<u8>;

/// Builds a data point with `DataPoint::builder(measurement)`, one `tag` and two
/// `field`s of type `i64`, then `build`, and writes it as line protocol with
/// `WriteDataPoint::write_data_point_to`. Claimed: the bytes are `influx_line` of
/// the arguments. `build` fails only for a point without fields, and writing to a
/// `Vec` does not fail, so no bytes are lost on either path.
#[verifier::external_body]
fn point_line_protocol(
    measurement: &str,
    tag_key: &str,
    tag_value: &str,
    field_a: &str,
    value_a: i64,
    field_b: &str,
    value_b: i64,
) -> (line: Vec<u8>)
    ensures
        line@ == influx_line(
            measurement@,
            tag_key@,
            tag_value@,
            field_a@,
            value_a,
            field_b@,
            value_b,
        ),
{
    let mut line: Vec<u8> = Vec::new();
    if let Ok(point) = DataPoint::builder(measurement).tag(tag_key, tag_value).field(
        field_a,
        value_a,
    ).field(field_b, value_b).build() {
        let _ = point.write_data_point_to(&mut line);
    }
    line
}

/// The line protocol of the data point that the server stores for a reading:
/// measurement `co2`, tag `room`, integer fields `eco2` and `tvoc`.
pub open spec fn reading_line(req: DataRequest) -> Seq<u8> {
    influx_line(
        "co2"@,
        "room"@,
        req.room@,
        "eco2"@,
        req.eco2 as i64,
        "tvoc"@,
        req.tvoc as i64,
    )
}

/// Law: the data point stored for a reading is the point of measurement `co2`
/// tagged with the posted room whose `eco2` and `tvoc` fields hold the posted
/// values, unchanged (as 64-bit integers of the same value).
pub proof fn lemma_reading_line_keeps_values(req: DataRequest)
    ensures
        forall|eco2: i64, tvoc: i64|
            eco2 == req.eco2 && tvoc == req.tvoc ==> reading_line(req) == #[trigger] influx_line(
                "co2"@,
                "room"@,
                req.room@,
                "eco2"@,
                eco2,
                "tvoc"@,
                tvoc,
            ),
{
}

/// The data point (as line protocol) that the server writes to InfluxDB for a
/// posted reading.
pub fn data_point_line(req: &DataRequest) -> (line: Vec<u8>)
    ensures
        line@ == reading_line(*req),
        forall|eco2: i64, tvoc: i64|
            eco2 == req.eco2 && tvoc == req.tvoc ==> line@ == #[trigger] influx_line(
                "co2"@,
                "room"@,
                req.room@,
                "eco2"@,
                eco2,
                "tvoc"@,
                tvoc,
            ),
{
    proof {
        lemma_reading_line_keeps_values(*req);
    }
    point_line_protocol(
        "co2",
        "room",
        req.room.as_str(),
        "eco2",
        req.eco2 as i64,
        "tvoc",
        req.tvoc as i64,
    )
}

} // verus!
