//! The metadata extractor: selects the first track of a probed file, derives
//! duration and average bitrate, and normalizes tag keys.

use vstd::prelude::*;
use convert_case::Casing;
use crate::info::{AudioInfo, ExtractError, ProbeData, RawTag, TrackData};

verus! {

/// The number of set bits of a natural number.
pub open spec fn popcount(n: nat) -> nat
    decreases n,
{
    if n == 0 {
        0
    } else {
        (n % 2) + popcount(n / 2)
    }
}

proof fn lemma_popcount_bound(n: nat, b: nat)
    requires
        n < vstd::arithmetic::power2::pow2(b),
    ensures
        popcount(n) <= b,
    decreases b,
{
    if b == 0 {
        assert(vstd::arithmetic::power2::pow2(0) == 1) by {
            vstd::arithmetic::power2::lemma2_to64();
        }
        assert(n == 0);
    } else {
        vstd::arithmetic::power2::lemma_pow2_unfold(b);
        lemma_popcount_bound(n / 2, (b - 1) as nat);
    }
}

fn popcount_u32(n: u32) -> (r: u32)
    ensures
        r == popcount(n as nat),
        r <= 32,
    decreases n,
{
    proof {
        vstd::arithmetic::power2::lemma2_to64();
        lemma_popcount_bound(n as nat, 32);
    }
    if n == 0 {
        0
    } else {
        (n % 2) + popcount_u32(n / 2)
    }
}

/// The channel count derived from a channel-layout bit mask.
pub open spec fn channels_of(t: TrackData) -> Option<u8> {
    match t.channel_bits {
        Some(b) => Some(popcount(b as nat) as u8),
        None => None,
    }
}

/// The whole seconds of playing time of a track: its time base applied to
/// its frame count, truncated to whole seconds, wrapping on overflow. Absent
/// unless the track has both a time base with positive numerator and
/// denominator and a frame count.
pub open spec fn duration_of(t: TrackData) -> Option<u64> {
    match (t.time_base, t.n_frames) {
        (Some((numer, denom)), Some(frames)) => if numer > 0 && denom > 0 {
            Some((((frames as int) * (numer as int) / (denom as int)) % 0x10000000000000000) as u64)
        } else {
            None
        },
        _ => None,
    }
}

/// Average bitrate in kilobits per second: `size * 8 / dur / 1000`, rounded
/// down and saturated at the largest 32-bit value.
pub open spec fn bitrate_kbps(size: nat, dur: nat) -> nat
    recommends
        dur > 0,
{
    let k = size * 8 / dur / 1000;
    if k > 0xffff_ffff {
        0xffff_ffff
    } else {
        k
    }
}

/// The average bitrate of a track: present only when the duration is known
/// and non-zero, so that the defining division never divides by zero.
pub open spec fn bitrate_of(t: TrackData, size: u64) -> Option<u32> {
    match duration_of(t) {
        Some(d) => if d > 0 {
            Some(bitrate_kbps(size as nat, d as nat) as u32)
        } else {
            None
        },
        None => None,
    }
}

fn compute_bitrate(size: u64, dur: u64) -> (r: u32)
    requires
        dur > 0,
    ensures
        r == bitrate_kbps(size as nat, dur as nat),
{
    let bits: u128 = (size as u128) * 8;
    let kbps: u128 = bits / (dur as u128) / 1000;
    if kbps > 0xffff_ffff {
        0xffff_ffff
    } else {
        kbps as u32
    }
}

/// Relies on symphonia's `TimeBase::calc_time`: for a time base with
/// positive numerator and denominator, the whole-second part of the computed
/// time is the tick count times the numerator, divided by the denominator
/// and truncated, wrapping on 64-bit overflow.
#[verifier::external_body]
fn calc_duration_seconds(numer: u32, denom: u32, ticks: u64) -> (r: u64)
    requires
        numer > 0,
        denom > 0,
    ensures
        r == (((ticks as int) * (numer as int) / (denom as int)) % 0x10000000000000000) as u64,
{
    symphonia::core::units::TimeBase::new(numer, denom).calc_time(ticks).seconds
}

/// What an outside case conversion returns for a given key: its words in
/// lower case, joined by underscores.
pub uninterp spec fn snake_of(s: Seq<char>) -> Seq<char>;

/// Relies on convert_case's `Casing::to_case` with the snake-case target:
/// splits the key into words, lower-cases them and joins them with
/// underscores. The result depends on the input characters alone.
#[verifier::external_body]
fn to_snake_case(s: &str) -> (r: String)
    ensures
        r@ == snake_of(s@),
{
    s.to_case(convert_case::Case::Snake)
}

/// The key a tag is normalized from: the standardized key when the format
/// recognized one, the raw key otherwise.
pub open spec fn tag_key_source(t: RawTag) -> Seq<char> {
    match t.std_key {
        Some(k) => k@,
        None => t.key@,
    }
}

/// The normalized form of a tag's key.
pub open spec fn normalized_key(t: RawTag) -> Seq<char> {
    snake_of(tag_key_source(t))
}

/// Normalizes a tag's key: the standardized key when one was recognized,
/// the raw key otherwise, converted to snake case.
pub fn normalize_key(tag: &RawTag) -> (r: String)
    ensures
        r@ == normalized_key(*tag),
{
    match &tag.std_key {
        Some(k) => to_snake_case(k.as_str()),
        None => to_snake_case(tag.key.as_str()),
    }
}

/// The average bitrate is present exactly when a non-zero duration is: a
/// zero duration leaves it absent, and the defining division is never made.
pub proof fn bitrate_requires_duration(t: TrackData, size: u64)
    ensures
        bitrate_of(t, size) is Some <==> (duration_of(t) is Some && duration_of(t)->Some_0 > 0),
{
}

/// What a successful extraction must hold, for the first track `t` of the
/// probed data.
pub open spec fn extract_ok(
    info: AudioInfo,
    path: Seq<char>,
    file_size_bytes: u64,
    probe: ProbeData,
) -> bool {
    let t = probe.tracks@[0];
    &&& info.file_path@ == path
    &&& info.sample_rate == t.sample_rate
    &&& info.channels == channels_of(t)
    &&& info.duration_seconds == duration_of(t)
    &&& info.avg_bitrate_kbps == bitrate_of(t, file_size_bytes)
    &&& info.file_size_bytes == file_size_bytes
    &&& info.codec == t.codec
    &&& info.tags@.len() == probe.tags@.len()
    &&& forall|i: int|
        0 <= i < probe.tags@.len() ==> (#[trigger] info.tags@[i]).0@ == normalized_key(
            probe.tags@[i],
        ) && info.tags@[i].1@ == probe.tags@[i].value@
}

/// Builds one file's result from the plain values the probe reported:
/// selects the first track, derives duration and bitrate, and normalizes the
/// tags. Fails exactly when the probed container exposed no track.
pub fn process_file(path: String, file_size_bytes: u64, probe: &ProbeData) -> (r: Result<
    AudioInfo,
    ExtractError,
>)
    ensures
        r is Ok <==> probe.tracks@.len() > 0,
        r is Err ==> r == Err::<AudioInfo, ExtractError>(ExtractError::NoSupportedTrack),
        r is Ok ==> extract_ok(r->Ok_0, path@, file_size_bytes, *probe),
{
    if probe.tracks.len() == 0 {
        return Err(ExtractError::NoSupportedTrack);
    }
    let t = &probe.tracks[0];
    let channels: Option<u8> = match t.channel_bits {
        Some(b) => Some(popcount_u32(b) as u8),
        None => None,
    };
    let duration_seconds: Option<u64> = match (t.time_base, t.n_frames) {
        (Some((numer, denom)), Some(frames)) => {
            if numer > 0 && denom > 0 {
                Some(calc_duration_seconds(numer, denom, frames))
            } else {
                None
            }
        },
        _ => None,
    };
    let avg_bitrate_kbps: Option<u32> = match duration_seconds {
        Some(d) => if d > 0 {
            Some(compute_bitrate(file_size_bytes, d))
        } else {
            None
        },
        None => None,
    };
    let mut tags: Vec<(String, String)> = Vec::new();
    let mut i: usize = 0;
    while i < probe.tags.len()
        invariant
            0 <= i <= probe.tags@.len(),
            tags@.len() == i,
            forall|j: int|
                0 <= j < i ==> (#[trigger] tags@[j]).0@ == normalized_key(probe.tags@[j])
                    && tags@[j].1@ == probe.tags@[j].value@,
        decreases probe.tags@.len() - i,
    {
        let tag = &probe.tags[i];
        let key = normalize_key(tag);
        let value = tag.value.clone();
        tags.push((key, value));
        i = i + 1;
    }
    let info = AudioInfo {
        file_path: path,
        sample_rate: t.sample_rate,
        channels,
        duration_seconds,
        avg_bitrate_kbps,
        tags,
        file_size_bytes,
        codec: match &t.codec {
            Some(c) => Some(c.clone()),
            None => None,
        },
    };
    Ok(info)
}

} // verus!
