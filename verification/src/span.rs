//! Trace spans and the fixed-size record format they are decoded from.
//!
//! A record is 24 bytes: the tag, the start timestamp and the stop timestamp,
//! each a little-endian `u64`, concatenated without padding or header.

use vstd::prelude::*;

verus! {

/// One interval of a trace: a lane tag and a start/stop timestamp pair.
#[derive(Clone, Copy, Debug, PartialEq, Eq, Structural)]
pub struct Span {
    pub tag: u64,
    pub start: u64,
    pub stop: u64,
}

impl Span {
    /// A span is well formed when it stops no earlier than it starts.
    pub open spec fn wf(self) -> bool {
        self.start <= self.stop
    }
}

/// The value of eight bytes read as a little-endian integer.
pub open spec fn le64(b: Seq<u8>) -> int
    recommends
        b.len() == 8,
{
    b[0] + 0x100 * b[1] + 0x1_0000 * b[2] + 0x100_0000 * b[3] + 0x1_0000_0000 * b[4]
        + 0x100_0000_0000 * b[5] + 0x1_0000_0000_0000 * b[6] + 0x100_0000_0000_0000 * b[7]
}

/// Reads eight bytes at `off` as a little-endian `u64`.
pub fn read_u64_le(data: &Vec<u8>, off: usize) -> (r: u64)
    requires
        off + 8 <= data.len(),
    ensures
        r == le64(data@.subrange(off as int, off as int + 8)),
{
    let b0 = data[off] as u64;
    let b1 = data[off + 1] as u64;
    let b2 = data[off + 2] as u64;
    let b3 = data[off + 3] as u64;
    let b4 = data[off + 4] as u64;
    let b5 = data[off + 5] as u64;
    let b6 = data[off + 6] as u64;
    let b7 = data[off + 7] as u64;
    b0 + 0x100 * b1 + 0x1_0000 * b2 + 0x100_0000 * b3 + 0x1_0000_0000 * b4 + 0x100_0000_0000 * b5
        + 0x1_0000_0000_0000 * b6 + 0x100_0000_0000_0000 * b7
}

/// The span encoded by the record at index `i` of `data`.
pub open spec fn spec_record(data: Seq<u8>, i: int) -> Span
    recommends
        0 <= i,
        24 * i + 24 <= data.len(),
{
    Span {
        tag: le64(data.subrange(24 * i, 24 * i + 8)) as u64,
        start: le64(data.subrange(24 * i + 8, 24 * i + 16)) as u64,
        stop: le64(data.subrange(24 * i + 16, 24 * i + 24)) as u64,
    }
}

/// Decodes the record at index `i` of `data`.
pub fn decode_record(data: &Vec<u8>, i: usize) -> (s: Span)
    requires
        24 * i + 24 <= data.len(),
    ensures
        s == spec_record(data@, i as int),
{
    let off: usize = 24 * i;
    let tag = read_u64_le(data, off);
    let start = read_u64_le(data, off + 8);
    let stop = read_u64_le(data, off + 16);
    Span { tag, start, stop }
}

/// The spans encoded by records `lo..hi` of `data`, in record order.
pub open spec fn spec_records(data: Seq<u8>, lo: int, hi: int) -> Seq<Span>
    recommends
        0 <= lo <= hi,
        24 * hi <= data.len(),
{
    Seq::new((hi - lo) as nat, |k: int| spec_record(data, lo + k))
}

/// Whether the span's tag lies in the closed range `[tmin, tmax]`.
pub open spec fn tag_in_range(s: Span, tmin: u64, tmax: u64) -> bool {
    tmin <= s.tag && s.tag <= tmax
}

/// The subsequence of `s` whose tags lie in `[tmin, tmax]`, in original order.
pub open spec fn filter_tags(s: Seq<Span>, tmin: u64, tmax: u64) -> Seq<Span>
    decreases s.len(),
{
    if s.len() == 0 {
        Seq::empty()
    } else {
        let rest = filter_tags(s.drop_last(), tmin, tmax);
        if tag_in_range(s.last(), tmin, tmax) {
            rest.push(s.last())
        } else {
            rest
        }
    }
}

/// Decodes records `start_index..stop_index` of `data` and keeps those whose
/// tag lies in `[tag_min, tag_max]`.
pub fn load_spans(
    data: &Vec<u8>,
    start_index: usize,
    stop_index: usize,
    tag_min: u64,
    tag_max: u64,
) -> (spans: Vec<Span>)
    requires
        start_index <= stop_index,
        24 * stop_index <= data.len(),
    ensures
        spans@ == filter_tags(
            spec_records(data@, start_index as int, stop_index as int),
            tag_min,
            tag_max,
        ),
{
    let mut spans: Vec<Span> = Vec::new();
    let mut i: usize = start_index;
    while i < stop_index
        invariant
            start_index <= i <= stop_index,
            24 * stop_index <= data.len(),
            spans@ == filter_tags(
                spec_records(data@, start_index as int, i as int),
                tag_min,
                tag_max,
            ),
        decreases stop_index - i,
    {
        let s = decode_record(data, i);
        proof {
            let lo = start_index as int;
            let full = spec_records(data@, lo, i + 1);
            assert(full.drop_last() =~= spec_records(data@, lo, i as int));
            assert(full.last() == spec_record(data@, i as int));
        }
        if tag_min <= s.tag && s.tag <= tag_max {
            spans.push(s);
        }
        i = i + 1;
    }
    spans
}

} // verus!
