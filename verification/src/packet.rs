//! Decoding of the bike's notification payloads.
//!
//! The bike sends two packet shapes on one characteristic and tells them
//! apart by length alone. Every physical quantity is kept as an exact
//! integer count of a small unit, so that no rounding enters the decoder:
//! a speed of `s` units is `s / SPEED_UNITS_PER_KMH` km/h, a power of `p`
//! units is `p / POWER_UNITS_PER_WATT` W, and a cadence of `c` units is
//! `c / CADENCE_UNITS_PER_RPM` revolutions per minute.

use vstd::prelude::*;

verus! {

/// Length in bytes of a performance packet (speed and power).
pub const PERFORMANCE_LEN: usize = 18;

/// Length in bytes of a cadence packet (cadence and elapsed time).
pub const CADENCE_LEN: usize = 6;

/// Speed units in one km/h: speeds are counted in thousandths of a km/h.
pub const SPEED_UNITS_PER_KMH: u32 = 1000;

/// Speed units in one raw count: a raw count is 0.168 km/h on this bike.
pub const SPEED_UNITS_PER_COUNT: u32 = 168;

/// Power units in one watt: powers are counted in hundredths of a watt.
pub const POWER_UNITS_PER_WATT: i32 = 100;

/// Power units in one raw count: a raw count is 0.83 W on this bike.
pub const POWER_UNITS_PER_COUNT: i32 = 83;

/// Cadence units in one revolution per minute.
pub const CADENCE_UNITS_PER_RPM: u32 = 427;

/// Cadence units in one raw pulse: 42.7 pulses make one revolution per
/// minute, so one pulse is 10/427 of it.
pub const CADENCE_UNITS_PER_COUNT: u32 = 10;

/// A notification, decoded and scaled.
#[derive(Clone, Copy, PartialEq, Eq, Structural, Debug)]
pub enum DecodedReading {
    /// From an 18-byte packet: `speed` in speed units, `power` in power units.
    Performance { speed: u32, power: i32 },
    /// From a 6-byte packet: `cadence` in cadence units, and the ride time
    /// that the bike reports, in seconds.
    Cadence { cadence: u32, elapsed_seconds: u16 },
    /// Any other length. It carries nothing and changes nothing.
    Unrecognized,
}

/// Value of two bytes read as an unsigned 16-bit little-endian integer.
pub open spec fn le16(lo: u8, hi: u8) -> int {
    lo as int + 256 * (hi as int)
}

/// Value of two bytes read as a signed (two's complement) 16-bit
/// little-endian integer.
pub open spec fn le16_signed(lo: u8, hi: u8) -> int {
    if hi < 128 {
        le16(lo, hi)
    } else {
        le16(lo, hi) - 65536
    }
}

/// Speed, in speed units, that a raw speed count stands for.
pub open spec fn speed_units(raw: int) -> int {
    raw * (SPEED_UNITS_PER_COUNT as int)
}

/// Power, in power units, that a raw power count stands for.
pub open spec fn power_units(raw: int) -> int {
    raw * (POWER_UNITS_PER_COUNT as int)
}

/// Cadence, in cadence units, that a raw pulse count stands for.
pub open spec fn cadence_units(raw: int) -> int {
    raw * (CADENCE_UNITS_PER_COUNT as int)
}

/// The reading that a payload stands for.
///
/// Performance packet: speed count in bytes 2 and 3, signed power count in
/// bytes 9 and 10. Cadence packet: pulse count in bytes 2 and 3, elapsed
/// seconds in bytes 4 and 5. All fields are little-endian.
pub open spec fn decode_spec(payload: Seq<u8>) -> DecodedReading {
    if payload.len() == PERFORMANCE_LEN {
        DecodedReading::Performance {
            speed: speed_units(le16(payload[2], payload[3])) as u32,
            power: power_units(le16_signed(payload[9], payload[10])) as i32,
        }
    } else if payload.len() == CADENCE_LEN {
        DecodedReading::Cadence {
            cadence: cadence_units(le16(payload[2], payload[3])) as u32,
            elapsed_seconds: le16(payload[4], payload[5]) as u16,
        }
    } else {
        DecodedReading::Unrecognized
    }
}

/// Reads two bytes as an unsigned 16-bit little-endian integer.
pub fn read_le16(lo: u8, hi: u8) -> (value: u16)
    ensures
        value as int == le16(lo, hi),
{
    let low: u16 = lo as u16;
    let high: u16 = hi as u16;
    high * 256 + low
}

/// Reads two bytes as a signed 16-bit little-endian integer.
pub fn read_le16_signed(lo: u8, hi: u8) -> (value: i16)
    ensures
        value as int == le16_signed(lo, hi),
{
    let unsigned: i32 = (hi as i32) * 256 + (lo as i32);
    if hi < 128 {
        unsigned as i16
    } else {
        (unsigned - 65536) as i16
    }
}

/// Decodes one notification payload.
///
/// Total over the length: 18 bytes give a performance reading, 6 bytes a
/// cadence reading, anything else `Unrecognized`. The bytes of a packet of
/// a known length are taken at face value.
pub fn decode(payload: &[u8]) -> (reading: DecodedReading)
    ensures
        reading == decode_spec(payload@),
{
    if payload.len() == PERFORMANCE_LEN {
        let raw_speed: u16 = read_le16(payload[2], payload[3]);
        let raw_power: i16 = read_le16_signed(payload[9], payload[10]);
        DecodedReading::Performance {
            speed: (raw_speed as u32) * SPEED_UNITS_PER_COUNT,
            power: (raw_power as i32) * POWER_UNITS_PER_COUNT,
        }
    } else if payload.len() == CADENCE_LEN {
        let raw_cadence: u16 = read_le16(payload[2], payload[3]);
        DecodedReading::Cadence {
            cadence: (raw_cadence as u32) * CADENCE_UNITS_PER_COUNT,
            elapsed_seconds: read_le16(payload[4], payload[5]),
        }
    } else {
        DecodedReading::Unrecognized
    }
}

/// A payload is unrecognized exactly when its length is neither that of a
/// performance packet nor that of a cadence packet.
pub proof fn lemma_recognized_by_length(payload: Seq<u8>)
    ensures
        payload.len() == PERFORMANCE_LEN <==> decode_spec(payload) is Performance,
        payload.len() == CADENCE_LEN <==> decode_spec(payload) is Cadence,
        (payload.len() != PERFORMANCE_LEN && payload.len() != CADENCE_LEN) <==> decode_spec(
            payload,
        ) is Unrecognized,
{
}

/// The fields of a performance reading are the scaled counts themselves:
/// nothing is lost to the width of the fields.
pub proof fn lemma_performance_fields(payload: Seq<u8>)
    requires
        payload.len() == PERFORMANCE_LEN,
    ensures
        decode_spec(payload) matches DecodedReading::Performance { speed, power } && {
            &&& speed as int == 168 * le16(payload[2], payload[3])
            &&& power as int == 83 * le16_signed(payload[9], payload[10])
            &&& 0 <= speed <= 168 * 65535
            &&& -83 * 32768 <= power <= 83 * 32767
        },
{
}

/// The fields of a cadence reading are the scaled pulse count and the
/// elapsed seconds as sent.
pub proof fn lemma_cadence_fields(payload: Seq<u8>)
    requires
        payload.len() == CADENCE_LEN,
    ensures
        decode_spec(payload) matches DecodedReading::Cadence { cadence, elapsed_seconds } && {
            &&& cadence as int == 10 * le16(payload[2], payload[3])
            &&& elapsed_seconds as int == le16(payload[4], payload[5])
            &&& 0 <= cadence <= 10 * 65535
        },
{
}

/// Decoding looks at nothing but the length and the bytes that hold the
/// fields: two performance packets that agree on bytes 2, 3, 9 and 10
/// decode alike, and so do two cadence packets that agree on bytes 2 to 5.
pub proof fn lemma_only_fields_matter(a: Seq<u8>, b: Seq<u8>)
    requires
        a.len() == b.len(),
        a.len() == PERFORMANCE_LEN ==> a[2] == b[2] && a[3] == b[3] && a[9] == b[9] && a[10]
            == b[10],
        a.len() == CADENCE_LEN ==> a[2] == b[2] && a[3] == b[3] && a[4] == b[4] && a[5] == b[5],
    ensures
        decode_spec(a) == decode_spec(b),
{
}

} // verus!
