//! Time values of the protocol.
use vstd::prelude::*;

use crate::reader::PacketReader;
use crate::writer::PacketWriter;
use crate::error::Error;
use crate::PacketResult;

use super::{DecodeFail, DecodePacket, EncodePacket, PacketCodec};

verus! {

broadcast use vstd::seq_lib::group_seq_properties;

/// What `std::time::Duration::as_millis` gives for a duration: its whole
/// milliseconds.
pub uninterp spec fn duration_millis(d: std::time::Duration) -> u128;

/// What `std::time::Duration::as_nanos` gives for a duration: all of it in
/// nanoseconds. A duration is its seconds and its sub-second nanoseconds, so
/// this number determines it.
pub uninterp spec fn duration_nanos(d: std::time::Duration) -> u128;

#[verifier::external_type_specification]
#[verifier::external_body]
pub struct ExSystemTime(std::time::SystemTime);

/// `std::time::SystemTime::now`: the current system time. It depends on
/// the clock, so nothing is claimed of it.
#[verifier::external_body]
fn system_time_now() -> std::time::SystemTime {
    std::time::SystemTime::now()
}

/// `nt_time::FileTime::try_from(SystemTime)`, taken as its raw count of
/// 100-nanosecond intervals since 1601-01-01 UTC (`FileTime::to_raw`). It
/// fails with `FileTimeRangeError` when the time lies outside the range of
/// a file time; which times those are is not stated here.
#[verifier::external_body]
fn file_time_from_system_time(
    st: std::time::SystemTime,
) -> Result<u64, nt_time::error::FileTimeRangeError> {
    nt_time::FileTime::try_from(st).map(|t| t.to_raw())
}

/// Seconds from 1601-01-01 to 1970-01-01, the Unix epoch.
pub const UNIX_EPOCH_SECS: i64 = 11_644_473_600i64;

/// The Unix time of the file time `raw`: whole seconds since 1970-01-01
/// UTC (negative before it) and the nanoseconds past them.
pub open spec fn spec_unix_of_file_time(raw: u64) -> (i64, u32) {
    ((raw / 10_000_000 - UNIX_EPOCH_SECS) as i64, ((raw % 10_000_000) * 100) as u32)
}

/// The file time of the Unix time `secs` and `nanos`, its part under 100
/// nanoseconds dropped; `None` when it lies before 1601-01-01 or past the
/// largest file time.
pub open spec fn spec_file_time_of_unix(secs: i64, nanos: u32) -> Option<u64> {
    if secs < -UNIX_EPOCH_SECS || secs > 1_833_029_933_770 {
        None
    } else {
        let raw = (secs + UNIX_EPOCH_SECS) * 10_000_000 + nanos / 100;
        if raw <= u64::MAX {
            Some(raw as u64)
        } else {
            None
        }
    }
}

/// `nt_time::FileTime::to_unix_time` of the file time `raw`
/// (`FileTime::new`): the Unix seconds and the nanoseconds past them of the
/// same instant.
#[verifier::external_body]
fn file_time_to_unix_time(raw: u64) -> (r: (i64, u32))
    ensures
        r == spec_unix_of_file_time(raw),
{
    nt_time::FileTime::new(raw).to_unix_time()
}

/// `nt_time::FileTime::from_unix_time`, taken as its raw value
/// (`FileTime::to_raw`): the file time of the same instant, truncated to
/// 100 nanoseconds, or `FileTimeRangeError` when it is out of range.
#[verifier::external_body]
fn file_time_from_unix_time(secs: i64, nanos: u32) -> (r: Result<
    u64,
    nt_time::error::FileTimeRangeError,
>)
    ensures
        r is Ok <==> spec_file_time_of_unix(secs, nanos) is Some,
        r matches Ok(raw) ==> spec_file_time_of_unix(secs, nanos) == Some(raw),
{
    nt_time::FileTime::from_unix_time(secs, nanos).map(|t| t.to_raw())
}

/// `std::time::Duration::from_secs`: a duration of exactly `secs` seconds,
/// which is `secs * 10^9` nanoseconds and `secs * 1000` whole milliseconds.
#[verifier::external_body]
fn duration_from_secs(secs: u64) -> (r: std::time::Duration)
    ensures
        duration_nanos(r) == secs as u128 * 1_000_000_000,
        duration_millis(r) == secs as u128 * 1000,
{
    std::time::Duration::from_secs(secs)
}

/// Ticks of the win32 `GetTickCount` API.
#[derive(Debug, Clone, Copy)]
pub struct Ticks(pub u32);

/// Time of the win32 `timeGetTime` API: the time since system start, in
/// seconds.
#[derive(Debug, Clone, Copy, Default)]
pub struct ClientTime(pub u32);

impl ClientTime {
    /// The time as a `Duration` of exactly as many seconds.
    pub fn as_duration(&self) -> (r: std::time::Duration)
        ensures
            duration_nanos(r) == self.0 as u128 * 1_000_000_000,
            duration_millis(r) == self.0 as u128 * 1000,
    {
        duration_from_secs(self.0 as u64)
    }
}

/// A duration in milliseconds held in `T`.
#[derive(Debug, Clone, Copy, PartialEq)]
pub struct DurationMs<T>(pub T);

/// Duration in milliseconds held in a `u16`.
pub type ShroomDurationMs16 = DurationMs<u16>;

/// Duration in milliseconds held in a `u32`.
pub type ShroomDurationMs32 = DurationMs<u32>;

/// Offset in milliseconds relative to the client time. On the wire it is a
/// flag and a magnitude: the flag is written for offsets `>= 0`, and a set
/// flag is read back as a negative offset.
#[derive(Debug, Clone, Copy)]
pub struct ClientTimeOffset(pub DurationMs<i32>);

/// Offset relative to the server time, in milliseconds.
#[derive(Debug, Clone, Copy)]
pub struct ShroomTimeOffset(pub DurationMs<i32>);

/// A timestamp: 100-nanosecond intervals since 1601-01-01 UTC.
#[derive(Debug, Clone, Copy, PartialEq, Eq)]
pub struct ShroomTime(u64);

/// Earliest valid time, 1900-01-01.
pub const SHROOM_TIME_MIN_RAW: u64 = 94354848000000000u64;

/// Latest valid time, 2079-01-01; as an expiration time it means "never".
pub const SHROOM_TIME_MAX_RAW: u64 = 150842304000000000u64;

impl ShroomTime {
    /// The time `v`, raw.
    pub fn new(v: u64) -> (r: Self)
        ensures
            r.deep_view() == v,
    {
        ShroomTime(v)
    }

    /// The current time, or `InvalidTime` when the system clock lies outside
    /// the range of a file time. The clock decides which, so nothing is
    /// claimed of the value.
    pub fn now() -> (r: PacketResult<Self>)
        ensures
            r matches Err(e) ==> e is InvalidTime,
    {
        match file_time_from_system_time(system_time_now()) {
            Ok(raw) => Ok(ShroomTime(raw)),
            Err(e) => Err(Error::InvalidTime(e)),
        }
    }

    /// The time as Unix time: whole seconds since 1970-01-01 UTC and the
    /// nanoseconds past them.
    pub fn to_unix_time(&self) -> (r: (i64, u32))
        ensures
            r == spec_unix_of_file_time(self.deep_view()),
    {
        file_time_to_unix_time(self.0)
    }

    /// The time at Unix time `secs` and `nanos`, or `InvalidTime` when a
    /// file time cannot hold it.
    pub fn from_unix_time(secs: i64, nanos: u32) -> (r: PacketResult<Self>)
        ensures
            match spec_file_time_of_unix(secs, nanos) {
                Some(raw) => r matches Ok(t) && t.deep_view() == raw,
                None => r matches Err(e) && e is InvalidTime,
            },
    {
        match file_time_from_unix_time(secs, nanos) {
            Ok(raw) => Ok(ShroomTime(raw)),
            Err(e) => Err(Error::InvalidTime(e)),
        }
    }

    pub fn is_min(&self) -> (r: bool)
        ensures
            r == (self.deep_view() == SHROOM_TIME_MIN_RAW),
    {
        self.0 == SHROOM_TIME_MIN_RAW
    }

    pub fn is_max(&self) -> (r: bool)
        ensures
            r == (self.deep_view() == SHROOM_TIME_MAX_RAW),
    {
        self.0 == SHROOM_TIME_MAX_RAW
    }

    /// The raw value.
    pub fn raw(&self) -> (r: u64)
        ensures
            r == self.deep_view(),
    {
        self.0
    }

    /// The latest valid time.
    pub fn max() -> (r: Self)
        ensures
            r.deep_view() == SHROOM_TIME_MAX_RAW,
    {
        ShroomTime(SHROOM_TIME_MAX_RAW)
    }

    /// The earliest valid time.
    pub fn min() -> (r: Self)
        ensures
            r.deep_view() == SHROOM_TIME_MIN_RAW,
    {
        ShroomTime(SHROOM_TIME_MIN_RAW)
    }
}

/// A time taken to Unix time and back is the same time.
pub proof fn lemma_unix_time_roundtrip(raw: u64)
    ensures
        spec_file_time_of_unix(spec_unix_of_file_time(raw).0, spec_unix_of_file_time(raw).1)
            == Some(raw),
{
    let q = raw / 10_000_000;
    let m = raw % 10_000_000;
    assert(q <= 1_844_674_407_370);
    assert(q * 10_000_000 + m == raw);
    assert((m * 100) / 100 == m);
}

/// Expiration time: a time, or none for "never expires".
#[derive(Debug, Clone, Copy, PartialEq, Eq)]
pub struct ShroomExpirationTime(pub Option<ShroomTime>);

impl ShroomExpirationTime {
    /// Expires at `time`.
    pub fn new(time: ShroomTime) -> (r: Self)
        ensures
            r.0 == Some(time),
    {
        ShroomExpirationTime(Some(time))
    }

    /// Never expires.
    pub fn never() -> (r: Self)
        ensures
            r.0 is None,
    {
        ShroomExpirationTime(None)
    }

    /// The expiration time a raw wire value stands for: the latest valid time
    /// means "never".
    pub fn from_raw(v: u64) -> (r: Self)
        ensures
            r.deep_view() == spec_expiration_of(v),
    {
        if v != SHROOM_TIME_MAX_RAW {
            ShroomExpirationTime(Some(ShroomTime(v)))
        } else {
            ShroomExpirationTime(None)
        }
    }

    /// The raw wire value: "never" is written as the latest valid time.
    pub fn to_raw(&self) -> (r: u64)
        ensures
            r == spec_raw_of_expiration(self.deep_view()),
    {
        match self.0 {
            Some(t) => t.0,
            None => SHROOM_TIME_MAX_RAW,
        }
    }
}

/// Expiration time that a raw value stands for.
pub open spec fn spec_expiration_of(v: u64) -> Option<u64> {
    if v != SHROOM_TIME_MAX_RAW {
        Some(v)
    } else {
        None
    }
}

/// Raw value of an expiration time.
pub open spec fn spec_raw_of_expiration(v: Option<u64>) -> u64 {
    match v {
        Some(t) => t,
        None => SHROOM_TIME_MAX_RAW,
    }
}

impl DeepView for Ticks {
    type V = u32;

    open spec fn deep_view(&self) -> u32 {
        self.0
    }
}

impl DeepView for ClientTime {
    type V = u32;

    open spec fn deep_view(&self) -> u32 {
        self.0
    }
}

impl<T: DeepView> DeepView for DurationMs<T> {
    type V = T::V;

    open spec fn deep_view(&self) -> T::V {
        self.0.deep_view()
    }
}

impl DeepView for ClientTimeOffset {
    type V = i32;

    open spec fn deep_view(&self) -> i32 {
        self.0.0
    }
}

impl DeepView for ShroomTimeOffset {
    type V = i32;

    open spec fn deep_view(&self) -> i32 {
        self.0.0
    }
}

impl DeepView for ShroomTime {
    type V = u64;

    closed spec fn deep_view(&self) -> u64 {
        self.0
    }
}

impl DeepView for ShroomExpirationTime {
    type V = Option<u64>;

    open spec fn deep_view(&self) -> Option<u64> {
        match self.0 {
            Some(t) => Some(t.deep_view()),
            None => None,
        }
    }
}

impl EncodePacket for Ticks {
    open spec fn spec_encode(v: u32) -> Seq<u8> {
        u32::spec_encode(v)
    }

    fn encode_len(&self) -> (n: usize) {
        self.0.encode_len()
    }

    fn encode(&self, pw: &mut PacketWriter) -> (r: PacketResult<()>) {
        self.0.encode(pw)
    }
}

impl DecodePacket for Ticks {
    open spec fn spec_decode(s: Seq<u8>) -> Result<(u32, nat), DecodeFail> {
        u32::spec_decode(s)
    }

    proof fn lemma_decode_len(s: Seq<u8>) {
    }

    fn decode(pr: &mut PacketReader<'_>) -> (r: PacketResult<Self>) {
        let v = u32::decode(pr)?;
        Ok(Ticks(v))
    }
}

impl PacketCodec for Ticks {
    open spec fn spec_wf(v: u32) -> bool {
        true
    }

    proof fn lemma_roundtrip(v: u32, rest: Seq<u8>) {
        u32::lemma_roundtrip(v, rest);
    }
}

impl EncodePacket for ClientTime {
    open spec fn spec_encode(v: u32) -> Seq<u8> {
        u32::spec_encode(v)
    }

    fn encode_len(&self) -> (n: usize) {
        self.0.encode_len()
    }

    fn encode(&self, pw: &mut PacketWriter) -> (r: PacketResult<()>) {
        self.0.encode(pw)
    }
}

impl DecodePacket for ClientTime {
    open spec fn spec_decode(s: Seq<u8>) -> Result<(u32, nat), DecodeFail> {
        u32::spec_decode(s)
    }

    proof fn lemma_decode_len(s: Seq<u8>) {
    }

    fn decode(pr: &mut PacketReader<'_>) -> (r: PacketResult<Self>) {
        let v = u32::decode(pr)?;
        Ok(ClientTime(v))
    }
}

impl PacketCodec for ClientTime {
    open spec fn spec_wf(v: u32) -> bool {
        true
    }

    proof fn lemma_roundtrip(v: u32, rest: Seq<u8>) {
        u32::lemma_roundtrip(v, rest);
    }
}

impl EncodePacket for ShroomTime {
    open spec fn spec_encode(v: u64) -> Seq<u8> {
        u64::spec_encode(v)
    }

    fn encode_len(&self) -> (n: usize) {
        self.0.encode_len()
    }

    fn encode(&self, pw: &mut PacketWriter) -> (r: PacketResult<()>) {
        self.0.encode(pw)
    }
}

impl DecodePacket for ShroomTime {
    open spec fn spec_decode(s: Seq<u8>) -> Result<(u64, nat), DecodeFail> {
        u64::spec_decode(s)
    }

    proof fn lemma_decode_len(s: Seq<u8>) {
    }

    fn decode(pr: &mut PacketReader<'_>) -> (r: PacketResult<Self>) {
        let v = u64::decode(pr)?;
        Ok(ShroomTime(v))
    }
}

impl PacketCodec for ShroomTime {
    open spec fn spec_wf(v: u64) -> bool {
        true
    }

    proof fn lemma_roundtrip(v: u64, rest: Seq<u8>) {
        u64::lemma_roundtrip(v, rest);
    }
}

impl EncodePacket for ShroomTimeOffset {
    open spec fn spec_encode(v: i32) -> Seq<u8> {
        i32::spec_encode(v)
    }

    fn encode_len(&self) -> (n: usize) {
        self.0.0.encode_len()
    }

    fn encode(&self, pw: &mut PacketWriter) -> (r: PacketResult<()>) {
        self.0.0.encode(pw)
    }
}

impl DecodePacket for ShroomTimeOffset {
    open spec fn spec_decode(s: Seq<u8>) -> Result<(i32, nat), DecodeFail> {
        i32::spec_decode(s)
    }

    proof fn lemma_decode_len(s: Seq<u8>) {
    }

    fn decode(pr: &mut PacketReader<'_>) -> (r: PacketResult<Self>) {
        let v = i32::decode(pr)?;
        Ok(ShroomTimeOffset(DurationMs(v)))
    }
}

impl PacketCodec for ShroomTimeOffset {
    open spec fn spec_wf(v: i32) -> bool {
        true
    }

    proof fn lemma_roundtrip(v: i32, rest: Seq<u8>) {
        i32::lemma_roundtrip(v, rest);
    }
}

impl<T: EncodePacket> EncodePacket for DurationMs<T> {
    open spec fn spec_encode(v: T::V) -> Seq<u8> {
        T::spec_encode(v)
    }

    fn encode_len(&self) -> (n: usize) {
        self.0.encode_len()
    }

    fn encode(&self, pw: &mut PacketWriter) -> (r: PacketResult<()>) {
        self.0.encode(pw)
    }
}

impl<T: DecodePacket> DecodePacket for DurationMs<T> {
    open spec fn spec_decode(s: Seq<u8>) -> Result<(T::V, nat), DecodeFail> {
        T::spec_decode(s)
    }

    proof fn lemma_decode_len(s: Seq<u8>) {
        T::lemma_decode_len(s);
    }

    fn decode(pr: &mut PacketReader<'_>) -> (r: PacketResult<Self>) {
        let v = T::decode(pr)?;
        Ok(DurationMs(v))
    }
}

impl<T: PacketCodec> PacketCodec for DurationMs<T> {
    open spec fn spec_wf(v: T::V) -> bool {
        T::spec_wf(v)
    }

    proof fn lemma_roundtrip(v: T::V, rest: Seq<u8>) {
        T::lemma_roundtrip(v, rest);
    }
}

impl EncodePacket for ShroomExpirationTime {
    open spec fn spec_encode(v: Option<u64>) -> Seq<u8> {
        u64::spec_encode(spec_raw_of_expiration(v))
    }

    fn encode_len(&self) -> (n: usize) {
        self.to_raw().encode_len()
    }

    fn encode(&self, pw: &mut PacketWriter) -> (r: PacketResult<()>) {
        self.to_raw().encode(pw)
    }
}

impl DecodePacket for ShroomExpirationTime {
    open spec fn spec_decode(s: Seq<u8>) -> Result<(Option<u64>, nat), DecodeFail> {
        match u64::spec_decode(s) {
            Ok((v, n)) => Ok((spec_expiration_of(v), n)),
            Err(f) => Err(f),
        }
    }

    proof fn lemma_decode_len(s: Seq<u8>) {
    }

    fn decode(pr: &mut PacketReader<'_>) -> (r: PacketResult<Self>) {
        let v = u64::decode(pr)?;
        Ok(Self::from_raw(v))
    }
}

impl PacketCodec for ShroomExpirationTime {
    /// "Never" and every time but the latest valid one survive the round
    /// trip; the latest valid time reads back as "never".
    open spec fn spec_wf(v: Option<u64>) -> bool {
        match v {
            Some(t) => t != SHROOM_TIME_MAX_RAW,
            None => true,
        }
    }

    proof fn lemma_roundtrip(v: Option<u64>, rest: Seq<u8>) {
        u64::lemma_roundtrip(spec_raw_of_expiration(v), rest);
    }
}

/// Wire form of a client time offset: the flag `v >= 0` and the magnitude.
pub open spec fn spec_offset_wire(v: i32) -> (bool, u32) {
    (v >= 0, if v >= 0 {
        v as u32
    } else {
        (-(v as int)) as u32
    })
}

/// Offset read from its wire form: a set flag negates the magnitude.
pub open spec fn spec_offset_of_wire(w: (bool, u32)) -> i32 {
    if w.0 {
        (-(w.1 as i32 as int)) as i32
    } else {
        w.1 as i32
    }
}

impl ClientTimeOffset {
    /// The wire form: the flag `v >= 0` and the magnitude `|v|`.
    pub fn to_wire(&self) -> (r: (bool, u32))
        ensures
            r == spec_offset_wire(self.deep_view()),
    {
        let v = self.0.0;
        if v >= 0 {
            (true, v as u32)
        } else if v == i32::MIN {
            (false, 0x8000_0000u32)
        } else {
            (false, (-v) as u32)
        }
    }

    /// The offset a wire form stands for: the magnitude, negated when the
    /// flag is set (wrapping at `i32::MIN`).
    pub fn from_wire(w: (bool, u32)) -> (r: Self)
        ensures
            r.deep_view() == spec_offset_of_wire(w),
    {
        let m = #[verifier::truncate] (w.1 as i32);
        if w.0 {
            assert(m == i32::MIN ==> (-(m as int)) as i32 == i32::MIN) by (bit_vector);
            let n = if m == i32::MIN {
                i32::MIN
            } else {
                -m
            };
            ClientTimeOffset(DurationMs(n))
        } else {
            ClientTimeOffset(DurationMs(m))
        }
    }
}

impl EncodePacket for ClientTimeOffset {
    open spec fn spec_encode(v: i32) -> Seq<u8> {
        <(bool, u32)>::spec_encode(spec_offset_wire(v))
    }

    fn encode_len(&self) -> (n: usize) {
        self.to_wire().encode_len()
    }

    fn encode(&self, pw: &mut PacketWriter) -> (r: PacketResult<()>) {
        self.to_wire().encode(pw)
    }
}

impl DecodePacket for ClientTimeOffset {
    open spec fn spec_decode(s: Seq<u8>) -> Result<(i32, nat), DecodeFail> {
        match <(bool, u32)>::spec_decode(s) {
            Ok((w, n)) => Ok((spec_offset_of_wire(w), n)),
            Err(f) => Err(f),
        }
    }

    proof fn lemma_decode_len(s: Seq<u8>) {
        <(bool, u32)>::lemma_decode_len(s);
    }

    fn decode(pr: &mut PacketReader<'_>) -> (r: PacketResult<Self>) {
        let w = <(bool, u32)>::decode(pr)?;
        Ok(Self::from_wire(w))
    }
}

/// Decoding an encoded client time offset gives its negation (wrapping at
/// `i32::MIN`): the flag written for offsets `>= 0` is read as "negative".
pub proof fn lemma_client_time_offset_negates(v: i32, rest: Seq<u8>)
    ensures
        ClientTimeOffset::spec_decode(ClientTimeOffset::spec_encode(v) + rest) == Ok::<
            (i32, nat),
            DecodeFail,
        >(((-(v as int)) as i32, ClientTimeOffset::spec_encode(v).len())),
{
    <(bool, u32)>::lemma_roundtrip(spec_offset_wire(v), rest);
    let w = spec_offset_wire(v);
    let m = w.1;
    if v >= 0 {
        assert((-((v as u32) as i32 as int)) as i32 == (-(v as int)) as i32) by (bit_vector)
            requires
                v >= 0,
        ;
    } else {
        assert(((-(v as int)) as u32) as i32 == (-(v as int)) as i32) by (bit_vector)
            requires
                v < 0,
        ;
    }
}

} // verus!
