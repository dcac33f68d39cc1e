//! One-way voice: framing of captured samples, the wire format, and the jitter
//! buffer of the playback side.
//!
//! The wire format is fixed at 48 kHz, mono, signed 16-bit little-endian.
use std::sync::atomic::AtomicBool;
use std::sync::Arc;

use ringbuf::traits::{Consumer, Observer, RingBuffer};
use vstd::prelude::*;

verus! {

/// Sample rate of the wire format, in Hz.
pub const SAMPLE_RATE: u32 = 48_000;

/// Samples of a 20 ms frame.
pub const FRAME_SAMPLES: usize = 960;

/// Samples that are gathered before playback starts.
pub const PREBUFFER_SAMPLES: usize = 2880;

/// Samples that the playback side holds at most: one second.
pub const RING_CAPACITY: usize = 48_000;

/// Samples that are played back at most at a time.
pub const SCRATCH_SAMPLES: usize = 8192;

// --------------------------------------------------------------- wire format

/// A sample as an unsigned 16-bit number.
pub open spec fn unsigned(s: i16) -> int {
    if s < 0 {
        s + 0x1_0000
    } else {
        s as int
    }
}

/// The sample with the given low and high byte.
pub open spec fn sample(low: u8, high: u8) -> i16 {
    let u = low + 256 * high;
    if u >= 0x8000 {
        (u - 0x1_0000) as i16
    } else {
        u as i16
    }
}

/// Samples as bytes: the low byte of each sample, then its high byte.
pub open spec fn encoded(samples: Seq<i16>) -> Seq<u8> {
    Seq::new(
        2 * samples.len(),
        |i: int|
            if i % 2 == 0 {
                (unsigned(samples[i / 2]) % 256) as u8
            } else {
                (unsigned(samples[i / 2]) / 256) as u8
            },
    )
}

/// The samples that bytes stand for; an odd byte at the end stands for none.
pub open spec fn decoded(bytes: Seq<u8>) -> Seq<i16> {
    Seq::new(bytes.len() / 2, |i: int| sample(bytes[2 * i], bytes[2 * i + 1]))
}

/// Encodes samples for the wire.
pub fn encode_frame(samples: &[i16]) -> (out: Vec<u8>)
    ensures
        out@ == encoded(samples@),
{
    let mut out: Vec<u8> = Vec::new();
    let mut i: usize = 0;
    while i < samples.len()
        invariant
            i <= samples@.len(),
            out@ == encoded(samples@.take(i as int)),
        decreases samples@.len() - i,
    {
        let w: i32 = samples[i] as i32;
        let u: i32 = if w < 0 { w + 0x1_0000 } else { w };
        out.push((u % 256) as u8);
        out.push((u / 256) as u8);
        assert(out@ =~= encoded(samples@.take(i + 1)));
        i += 1;
    }
    assert(samples@.take(i as int) == samples@);
    out
}

/// Decodes samples from the wire.
pub fn decode_frame(bytes: &[u8]) -> (out: Vec<i16>)
    ensures
        out@ == decoded(bytes@),
{
    let total: usize = bytes.len();
    let n: usize = total / 2;
    let mut out: Vec<i16> = Vec::new();
    let mut i: usize = 0;
    while i < n
        invariant
            total == bytes@.len(),
            n == total / 2,
            i <= n,
            out@.len() == i,
            forall|j: int| 0 <= j < i ==> #[trigger] out@[j] == sample(bytes@[2 * j], bytes@[2 * j + 1]),
        decreases n - i,
    {
        let u: i32 = bytes[2 * i] as i32 + 256 * (bytes[2 * i + 1] as i32);
        let s: i32 = if u >= 0x8000 { u - 0x1_0000 } else { u };
        out.push(s as i16);
        i += 1;
    }
    assert(out@ =~= decoded(bytes@));
    out
}

proof fn lemma_sample_bytes(low: u8, high: u8)
    ensures
        unsigned(sample(low, high)) == low + 256 * high,
        (unsigned(sample(low, high)) % 256) as u8 == low,
        (unsigned(sample(low, high)) / 256) as u8 == high,
{
    let u = low + 256 * high;
    assert(u % 256 == low);
    assert(u / 256 == high);
}

proof fn lemma_byte_sample(s: i16)
    ensures
        unsigned(s) == (unsigned(s) % 256) as u8 + 256 * ((unsigned(s) / 256) as u8),
        sample((unsigned(s) % 256) as u8, (unsigned(s) / 256) as u8) == s,
{
    let u = unsigned(s);
    assert(0 <= u < 0x1_0000);
    assert(u == (u % 256) + 256 * (u / 256));
    assert(0 <= u % 256 < 256 && 0 <= u / 256 < 256);
}

/// Decoding what was encoded gives the samples back.
#[verifier::spinoff_prover]
pub proof fn law_frame_round_trip(samples: Seq<i16>)
    ensures
        decoded(encoded(samples)) == samples,
{
    let b = encoded(samples);
    assert forall|i: int| 0 <= i < samples.len() implies #[trigger] decoded(b)[i] == samples[i] by {
        let u = unsigned(samples[i]);
        lemma_byte_sample(samples[i]);
        assert(b[2 * i] == (u % 256) as u8);
        assert(b[2 * i + 1] == (u / 256) as u8);
    }
    assert(decoded(b) =~= samples);
}

/// Encoding what was decoded from whole samples gives the bytes back.
#[verifier::spinoff_prover]
pub proof fn law_bytes_round_trip(bytes: Seq<u8>)
    requires
        bytes.len() % 2 == 0,
    ensures
        encoded(decoded(bytes)) == bytes,
{
    let s = decoded(bytes);
    assert(2 * s.len() == bytes.len());
    assert forall|i: int| 0 <= i < bytes.len() implies #[trigger] encoded(s)[i] == bytes[i] by {
        lemma_decoded_byte(bytes, i);
    }
    assert(encoded(s) =~= bytes);
}

#[verifier::spinoff_prover]
proof fn lemma_decoded_byte(bytes: Seq<u8>, i: int)
    requires
        bytes.len() % 2 == 0,
        0 <= i < bytes.len(),
    ensures
        encoded(decoded(bytes))[i] == bytes[i],
{
    let k = i / 2;
    let s = decoded(bytes);
    assert(0 <= k < s.len());
    assert(i == 2 * k || i == 2 * k + 1);
    assert(s[k] == sample(bytes[2 * k], bytes[2 * k + 1]));
    lemma_sample_bytes(bytes[2 * k], bytes[2 * k + 1]);
}

// ------------------------------------------------------------------- capture

/// Whether a range of sample rates, lowest and highest, holds that of the wire.
pub open spec fn at_48k(range: (u32, u32)) -> bool {
    range.0 <= SAMPLE_RATE <= range.1
}

/// A configuration will do exactly where 48 kHz lies in its range, both ends
/// counted in.
pub proof fn law_ranges_hold_their_ends(range: (u32, u32))
    ensures
        at_48k(range) <==> range.0 <= 48_000 && 48_000 <= range.1,
        at_48k((48_000, 48_000)),
{
}

/// Which of a device's configurations runs at [`SAMPLE_RATE`]: the first whose
/// range of sample rates, lowest and highest, holds it.
pub fn config_at_48k(ranges: &[(u32, u32)]) -> (found: Option<usize>)
    ensures
        found matches Some(i) ==> i < ranges@.len() && at_48k(ranges@[i as int]) && forall|j: int|
            0 <= j < i ==> !at_48k(#[trigger] ranges@[j]),
        found is None ==> forall|j: int|
            0 <= j < ranges@.len() ==> !at_48k(#[trigger] ranges@[j]),
        match found {
            Some(i) => {
                &&& i < ranges@.len()
                &&& ranges@[i as int].0 <= SAMPLE_RATE <= ranges@[i as int].1
                &&& forall|j: int|
                    0 <= j < i ==> !((#[trigger] ranges@[j]).0 <= SAMPLE_RATE <= ranges@[j].1)
            },
            None => forall|j: int|
                0 <= j < ranges@.len() ==> !((#[trigger] ranges@[j]).0 <= SAMPLE_RATE
                    <= ranges@[j].1),
        },
{
    let mut i: usize = 0;
    while i < ranges.len()
        invariant
            i <= ranges@.len(),
            forall|j: int|
                0 <= j < i ==> !((#[trigger] ranges@[j]).0 <= SAMPLE_RATE <= ranges@[j].1),
        decreases ranges@.len() - i,
    {
        if ranges[i].0 <= SAMPLE_RATE && SAMPLE_RATE <= ranges[i].1 {
            return Some(i);
        }
        i += 1;
    }
    None
}

/// A microphone capture: its push-to-talk switch.
pub struct Capture {
    enabled: Arc<AtomicBool>,
}

impl Capture {
    /// The switch of the capture.
    pub closed spec fn switch(&self) -> Arc<AtomicBool> {
        self.enabled
    }

    /// A capture that is switched by `enabled`.
    pub fn new(enabled: Arc<AtomicBool>) -> (c: Capture)
        ensures
            c.switch() == enabled,
    {
        Capture { enabled }
    }

    /// The shared push-to-talk switch; frames are sent only while it is set.
    pub fn enabled(&self) -> (flag: Arc<AtomicBool>)
        ensures
            flag == self.switch(),
    {
        self.enabled.clone()
    }
}

/// A capture has one channel at least.
pub open spec fn lanes(channels: u16) -> int {
    if channels < 1 {
        1
    } else {
        channels as int
    }
}

/// Division that rounds toward zero.
pub open spec fn truncated_div(a: int, b: int) -> int {
    if a < 0 {
        -((-a) / b)
    } else {
        a / b
    }
}

/// Sum of samples.
pub open spec fn total(samples: Seq<i16>) -> int
    decreases samples.len(),
{
    if samples.len() == 0 {
        0
    } else {
        total(samples.drop_last()) + samples.last()
    }
}

/// How many groups of `lanes` samples there are, the last one possibly short.
pub open spec fn groups(len: int, lanes: int) -> int {
    (len + lanes - 1) / lanes
}

/// The samples of one moment, over all channels.
pub open spec fn group(data: Seq<i16>, lanes: int, k: int) -> Seq<i16> {
    data.subrange(
        k * lanes,
        if (k + 1) * lanes <= data.len() {
            (k + 1) * lanes
        } else {
            data.len() as int
        },
    )
}

/// Interleaved channels as one: each moment's sum over the channels, divided by
/// their number.
pub open spec fn mixed(data: Seq<i16>, channels: u16) -> Seq<i16> {
    Seq::new(
        groups(data.len() as int, lanes(channels)) as nat,
        |k: int|
            truncated_div(total(group(data, lanes(channels), k)), lanes(channels)) as i16,
    )
}

proof fn lemma_total(samples: Seq<i16>, i: int)
    requires
        0 <= i < samples.len(),
    ensures
        total(samples.take(i + 1)) == total(samples.take(i)) + samples[i],
{
    assert(samples.take(i + 1).drop_last() =~= samples.take(i));
}

/// Mixes interleaved channels into one.
pub fn mix(data: &[i16], channels: u16) -> (out: Vec<i16>)
    ensures
        out@ == mixed(data@, channels),
{
    let n: usize = data.len();
    let width: usize = if channels < 1 { 1 } else { channels as usize };
    let ghost w = lanes(channels);
    let mut out: Vec<i16> = Vec::new();
    let mut at: usize = 0;
    let ghost mut k: int = 0;
    assert((w - 1) / w == 0) by (nonlinear_arith)
        requires
            w >= 1,
    ;
    while at < n
        invariant
            n == data@.len(),
            at <= n,
            width == w,
            w == lanes(channels),
            1 <= w <= 65535,
            0 <= k,
            at < n ==> at == k * w,
            at == n ==> k == groups(n as int, w),
            out@.len() == k,
            forall|j: int|
                0 <= j < k ==> #[trigger] out@[j] == truncated_div(
                    total(group(data@, w, j)),
                    w,
                ) as i16,
        decreases n - at,
    {
        let end: usize = if n - at <= width { n } else { at + width };
        let ghost g = group(data@, w, k);
        proof {
            assert((k + 1) * w == k * w + w) by (nonlinear_arith);
            assert(g =~= data@.subrange(at as int, end as int));
        }
        let mut sum: i32 = 0;
        let mut i: usize = at;
        while i < end
            invariant
                n == data@.len(),
                at <= i <= end <= n,
                end - at <= w <= 65535,
                g == data@.subrange(at as int, end as int),
                sum == total(g.take(i - at)),
                -32768 * (i - at) <= sum <= 32767 * (i - at),
            decreases end - i,
        {
            proof {
                lemma_total(g, i - at);
                assert(g[i - at] == data@[i as int]);
            }
            sum += data[i] as i32;
            i += 1;
        }
        assert(g.take(end - at) =~= g);
        let count: i32 = width as i32;
        let level: i32 = if sum < 0 { -((-sum) / count) } else { sum / count };
        proof {
            assert(level == truncated_div(total(g), w));
            lemma_level(sum as int, end - at, w);
            lemma_groups(n as int, w, k, at as int, end as int);
        }
        out.push(level as i16);
        at = end;
        proof {
            k = k + 1;
        }
    }
    proof {
        assert(out@ =~= mixed(data@, channels));
    }
    out
}

proof fn lemma_level(sum: int, count: int, w: int)
    requires
        0 <= count <= w,
        1 <= w,
        -32768 * count <= sum <= 32767 * count,
    ensures
        -32768 <= truncated_div(sum, w) <= 32767,
{
    if sum < 0 {
        assert((-sum) / w <= 32768) by (nonlinear_arith)
            requires
                -sum <= 32768 * w,
                w >= 1,
        ;
        assert((-sum) / w >= 0) by (nonlinear_arith)
            requires
                -sum >= 0,
                w >= 1,
        ;
    } else {
        assert(sum / w <= 32767) by (nonlinear_arith)
            requires
                sum <= 32767 * w,
                w >= 1,
        ;
        assert(sum / w >= 0) by (nonlinear_arith)
            requires
                sum >= 0,
                w >= 1,
        ;
    }
}

proof fn lemma_groups(n: int, w: int, k: int, at: int, end: int)
    requires
        1 <= w,
        0 <= k,
        at == k * w,
        at < n,
        end == (if n - at <= w {
            n
        } else {
            at + w
        }),
    ensures
        end < n ==> end == (k + 1) * w,
        end == n ==> k + 1 == groups(n, w),
{
    assert((k + 1) * w == k * w + w) by (nonlinear_arith);
    if end == n {
        assert((n + w - 1) / w == k + 1) by (nonlinear_arith)
            requires
                k * w < n,
                n <= (k + 1) * w,
                w >= 1,
        ;
    }
}

/// Cuts captured samples into frames of [`FRAME_SAMPLES`].
pub struct Framer {
    acc: Vec<i16>,
}

impl View for Framer {
    type V = Seq<i16>;

    /// The samples that do not fill a frame yet.
    closed spec fn view(&self) -> Seq<i16> {
        self.acc@
    }
}

/// The whole frames at the front of `samples`, one after the other.
pub open spec fn frames_of(samples: Seq<i16>) -> Seq<Seq<i16>> {
    Seq::new(
        samples.len() / FRAME_SAMPLES as nat,
        |i: int| samples.subrange(i * FRAME_SAMPLES, (i + 1) * FRAME_SAMPLES),
    )
}

/// What is left of `samples` behind its whole frames.
pub open spec fn rest_of(samples: Seq<i16>) -> Seq<i16> {
    samples.skip(samples.len() as int / FRAME_SAMPLES as int * FRAME_SAMPLES)
}

/// What a framer holds after the microphone delivered something.
pub open spec fn held_after(held: Seq<i16>, on: bool, data: Seq<i16>, channels: u16) -> Seq<i16> {
    if on {
        rest_of(held + mixed(data, channels))
    } else {
        held
    }
}

/// The frames that are complete once the microphone delivered something.
pub open spec fn frames_after(held: Seq<i16>, on: bool, data: Seq<i16>, channels: u16) -> Seq<
    Seq<i16>,
> {
    if on {
        frames_of(held + mixed(data, channels))
    } else {
        Seq::empty()
    }
}

/// While the microphone is off nothing is captured, and nothing that was captured
/// before is lost; while it is on, all of it is, behind what is held.
pub proof fn law_only_what_is_switched_on_is_captured(
    held: Seq<i16>,
    on: bool,
    data: Seq<i16>,
    channels: u16,
)
    ensures
        end_to_end(frames_after(held, on, data, channels)) + held_after(held, on, data, channels)
            == held + if on {
            mixed(data, channels)
        } else {
            Seq::empty()
        },
        !on ==> frames_after(held, on, data, channels).len() == 0,
{
    if on {
        law_framing_loses_nothing(held + mixed(data, channels));
    } else {
        assert(end_to_end(Seq::<Seq<i16>>::empty()) =~= Seq::<i16>::empty());
        assert(Seq::<i16>::empty() + held =~= held);
        assert(held + Seq::<i16>::empty() =~= held);
    }
}

impl Framer {
    /// A framer that has seen nothing.
    pub fn new() -> (f: Framer)
        ensures
            f@ == Seq::<i16>::empty(),
    {
        Framer { acc: Vec::new() }
    }

    /// Takes what the microphone delivered, if the capture is switched on.
    /// Returns the frames that are complete now; the rest is kept for later.
    pub fn feed(&mut self, on: bool, data: &[i16], channels: u16) -> (frames: Vec<Vec<i16>>)
        ensures
            frames@.map_values(|f: Vec<i16>| f@) == frames_after(old(self)@, on, data@, channels),
            final(self)@ == held_after(old(self)@, on, data@, channels),
            if on {
                &&& frames@.map_values(|f: Vec<i16>| f@) == frames_of(
                    old(self)@ + mixed(data@, channels),
                )
                &&& final(self)@ == rest_of(old(self)@ + mixed(data@, channels))
            } else {
                &&& frames@.len() == 0
                &&& final(self)@ == old(self)@
            },
    {
        let mut frames: Vec<Vec<i16>> = Vec::new();
        if !on {
            assert(frames@.map_values(|f: Vec<i16>| f@) =~= Seq::<Seq<i16>>::empty());
            return frames;
        }
        let mut more = mix(data, channels);
        self.acc.append(&mut more);
        let ghost all = old(self)@ + mixed(data@, channels);
        assert(self.acc@ =~= all);
        let len: usize = self.acc.len();
        let mut at: usize = 0;
        while len - at >= FRAME_SAMPLES
            invariant
                all == self.acc@,
                len == all.len(),
                at <= len,
                at == frames@.len() * FRAME_SAMPLES,
                forall|j: int|
                    0 <= j < frames@.len() ==> (#[trigger] frames@[j])@ == all.subrange(
                        j * FRAME_SAMPLES,
                        (j + 1) * FRAME_SAMPLES,
                    ),
            decreases len - at,
        {
            let end: usize = at + FRAME_SAMPLES;
            frames.push(copied(&self.acc, at, end));
            at = end;
        }
        let left = copied(&self.acc, at, len);
        self.acc = left;
        proof {
            assert(frames@.len() == all.len() / FRAME_SAMPLES as nat);
            assert(frames@.map_values(|f: Vec<i16>| f@) =~= frames_of(all));
            assert(self@ =~= rest_of(all));
        }
        frames
    }
}

/// The samples from `from` up to `to`.
fn copied(samples: &Vec<i16>, from: usize, to: usize) -> (out: Vec<i16>)
    requires
        from <= to <= samples@.len(),
    ensures
        out@ == samples@.subrange(from as int, to as int),
{
    let mut out: Vec<i16> = Vec::new();
    let mut i: usize = from;
    while i < to
        invariant
            from <= i <= to <= samples@.len(),
            out@ == samples@.subrange(from as int, i as int),
        decreases to - i,
    {
        out.push(samples[i]);
        i += 1;
        assert(out@ =~= samples@.subrange(from as int, i as int));
    }
    out
}

/// Sequences of samples, one behind the other.
pub open spec fn end_to_end(frames: Seq<Seq<i16>>) -> Seq<i16>
    decreases frames.len(),
{
    if frames.len() == 0 {
        Seq::empty()
    } else {
        end_to_end(frames.drop_last()) + frames.last()
    }
}

/// Cutting into frames loses, repeats and reorders nothing: the frames and the
/// rest, one behind the other, are the samples. Every frame is full, and the
/// rest fills none.
pub proof fn law_framing_loses_nothing(samples: Seq<i16>)
    ensures
        end_to_end(frames_of(samples)) + rest_of(samples) == samples,
        forall|i: int|
            0 <= i < frames_of(samples).len() ==> (#[trigger] frames_of(samples)[i]).len()
                == FRAME_SAMPLES,
        rest_of(samples).len() < FRAME_SAMPLES,
{
    let n = frames_of(samples).len() as int;
    lemma_end_to_end(samples, n);
    assert(frames_of(samples).take(n) =~= frames_of(samples));
    assert(end_to_end(frames_of(samples)) + rest_of(samples) =~= samples);
}

proof fn lemma_end_to_end(samples: Seq<i16>, n: int)
    requires
        0 <= n <= frames_of(samples).len(),
    ensures
        end_to_end(frames_of(samples).take(n)) == samples.take(n * FRAME_SAMPLES),
    decreases n,
{
    let fs = frames_of(samples);
    if n == 0 {
        assert(samples.take(0) =~= Seq::<i16>::empty());
    } else {
        lemma_end_to_end(samples, n - 1);
        assert(fs.take(n).drop_last() =~= fs.take(n - 1));
        assert(samples.take((n - 1) * FRAME_SAMPLES) + fs[n - 1] =~= samples.take(
            n * FRAME_SAMPLES,
        ));
    }
}

// ------------------------------------------------------------------ playback

/// A bounded queue of samples, a `ringbuf::HeapRb`.
#[verifier::external_body]
pub struct Ring {
    rb: ringbuf::HeapRb<i16>,
}

/// The samples in a ring, oldest first.
pub uninterp spec fn ring_contents(r: Ring) -> Seq<i16>;

/// How many samples a ring holds at most.
pub uninterp spec fn ring_limit(r: Ring) -> nat;

/// The newest `limit` samples.
pub open spec fn newest(samples: Seq<i16>, limit: nat) -> Seq<i16> {
    if samples.len() <= limit {
        samples
    } else {
        samples.skip(samples.len() - limit)
    }
}

impl Ring {
    /// `ringbuf::HeapRb::new`, which panics on a capacity of zero. The contract
    /// says that the ring is empty and holds `capacity` samples at most.
    #[verifier::external_body]
    pub(crate) fn new(capacity: usize) -> (r: Ring)
        requires
            1 <= capacity <= 0x1000_0000,
        ensures
            ring_contents(r) == Seq::<i16>::empty(),
            ring_limit(r) == capacity,
    {
        Ring { rb: ringbuf::HeapRb::new(capacity) }
    }

    /// `ringbuf::traits::Observer::occupied_len`. The contract says that it is
    /// the number of samples in the ring.
    #[verifier::external_body]
    pub(crate) fn occupied_len(&self) -> (n: usize)
        ensures
            n == ring_contents(*self).len(),
    {
        self.rb.occupied_len()
    }

    /// `ringbuf::traits::RingBuffer::push_slice_overwrite`. The contract says
    /// that the samples go in behind those that are there, and that the oldest
    /// of all make way until the rest fits.
    #[verifier::external_body]
    pub(crate) fn push_slice_overwrite(&mut self, samples: &[i16])
        ensures
            ring_contents(*final(self)) == newest(
                ring_contents(*old(self)) + samples@,
                ring_limit(*old(self)),
            ),
            ring_limit(*final(self)) == ring_limit(*old(self)),
    {
        self.rb.push_slice_overwrite(samples)
    }

    /// `ringbuf::traits::Consumer::pop_slice`, on the first `want` places of
    /// `out`. The contract says that it takes as many of the oldest samples as
    /// there are and fit, and writes them to the front of `out` in order.
    #[verifier::external_body]
    pub(crate) fn pop_slice(&mut self, out: &mut Vec<i16>, want: usize) -> (got: usize)
        requires
            want <= old(out)@.len(),
        ensures
            got == (if ring_contents(*old(self)).len() < want {
                ring_contents(*old(self)).len()
            } else {
                want as nat
            }),
            ring_contents(*final(self)) == ring_contents(*old(self)).skip(got as int),
            ring_limit(*final(self)) == ring_limit(*old(self)),
            final(out)@ == ring_contents(*old(self)).take(got as int) + old(out)@.skip(got as int),
    {
        self.rb.pop_slice(&mut out[..want])
    }
}

/// Model of a playback.
pub struct PlaybackV {
    /// The samples that wait to be played, oldest first.
    pub queued: Seq<i16>,
    /// Whether playback has started; it has not while samples are gathered.
    pub playing: bool,
}

/// A speaker playback with a jitter buffer.
pub struct Playback {
    ring: Ring,
    playing: bool,
    scratch: Vec<i16>,
}

impl View for Playback {
    type V = PlaybackV;

    closed spec fn view(&self) -> PlaybackV {
        PlaybackV { queued: ring_contents(self.ring), playing: self.playing }
    }
}

/// Whether playback runs when the speaker asks for samples.
pub open spec fn runs(p: PlaybackV) -> bool {
    p.playing || p.queued.len() >= PREBUFFER_SAMPLES
}

/// How many samples are played when the speaker asks for `frames`.
pub open spec fn played(p: PlaybackV, frames: nat) -> nat {
    let want = if frames < SCRATCH_SAMPLES {
        frames
    } else {
        SCRATCH_SAMPLES as nat
    };
    if !runs(p) {
        0
    } else if p.queued.len() < want {
        p.queued.len()
    } else {
        want
    }
}

/// What the speaker is given for the slots of its buffer: the played samples,
/// each on all channels, then silence.
pub open spec fn sound(p: PlaybackV, slots: nat, channels: u16) -> Seq<i16> {
    let n = played(p, (slots as int / lanes(channels)) as nat);
    Seq::new(
        slots,
        |i: int|
            if i / lanes(channels) < n {
                p.queued[i / lanes(channels)]
            } else {
                0i16
            },
    )
}

/// The playback after the speaker was served. It stops when samples ran short,
/// to gather some before it goes on.
pub open spec fn after_sound(p: PlaybackV, slots: nat, channels: u16) -> PlaybackV {
    let frames = (slots as int / lanes(channels)) as nat;
    let n = played(p, frames);
    PlaybackV { queued: p.queued.skip(n as int), playing: runs(p) && n >= frames }
}

/// A playback that gathers samples and has none yet.
pub open spec fn new_playback() -> PlaybackV {
    PlaybackV { queued: Seq::empty(), playing: false }
}

/// A new playback is silent, however often the speaker asks, until something is
/// queued.
pub proof fn law_new_playbacks_are_silent(slots: nat, channels: u16, i: int)
    requires
        0 <= i < slots,
    ensures
        sound(new_playback(), slots, channels)[i] == 0,
        after_sound(new_playback(), slots, channels) == new_playback(),
{
    law_silent_until_gathered(new_playback(), slots, channels);
}

impl Playback {
    /// No more than [`RING_CAPACITY`] samples wait.
    pub closed spec fn wf(&self) -> bool {
        &&& ring_limit(self.ring) == RING_CAPACITY
        &&& ring_contents(self.ring).len() <= RING_CAPACITY
        &&& self.scratch@.len() == SCRATCH_SAMPLES
    }

    /// A playback that gathers samples.
    pub fn new() -> (p: Playback)
        ensures
            p.wf(),
            p@ == new_playback(),
            p@ == (PlaybackV { queued: Seq::empty(), playing: false }),
    {
        let mut scratch: Vec<i16> = Vec::new();
        while scratch.len() < SCRATCH_SAMPLES
            invariant
                scratch@.len() <= SCRATCH_SAMPLES,
            decreases SCRATCH_SAMPLES - scratch@.len(),
        {
            scratch.push(0);
        }
        Playback { ring: Ring::new(RING_CAPACITY), playing: false, scratch }
    }

    /// Queues samples. Where the queue overflows, the oldest samples go.
    pub fn push(&mut self, samples: &[i16])
        requires
            old(self).wf(),
        ensures
            final(self).wf(),
            final(self)@ == (PlaybackV {
                queued: newest(old(self)@.queued + samples@, RING_CAPACITY as nat),
                ..old(self)@
            }),
    {
        self.ring.push_slice_overwrite(samples);
    }

    /// Serves the speaker, which asks for as many samples as `out` has places.
    pub fn fill(&mut self, out: &mut Vec<i16>, channels: u16)
        requires
            old(self).wf(),
        ensures
            final(self).wf(),
            final(self)@ == after_sound(old(self)@, old(out)@.len(), channels),
            final(out)@ == sound(old(self)@, old(out)@.len(), channels),
    {
        let ghost p = self@;
        let slots: usize = out.len();
        let width: usize = if channels < 1 { 1 } else { channels as usize };
        let frames: usize = slots / width;
        if !self.playing && self.ring.occupied_len() >= PREBUFFER_SAMPLES {
            self.playing = true;
        }
        let want: usize = if frames < SCRATCH_SAMPLES { frames } else { SCRATCH_SAMPLES };
        let got: usize = if self.playing {
            self.ring.pop_slice(&mut self.scratch, want)
        } else {
            0
        };
        assert(got == played(p, frames as nat));
        assert(self@.queued =~= p.queued.skip(got as int));
        let mut i: usize = 0;
        while i < slots
            invariant
                i <= slots,
                out@.len() == slots,
                width == lanes(channels),
                width >= 1,
                got <= self.scratch@.len(),
                forall|j: int| 0 <= j < got ==> #[trigger] self.scratch@[j] == p.queued[j],
                forall|j: int|
                    0 <= j < i ==> #[trigger] out@[j] == (if j / lanes(channels) < got {
                        p.queued[j / lanes(channels)]
                    } else {
                        0i16
                    }),
            decreases slots - i,
        {
            let f: usize = i / width;
            let level: i16 = if f < got { self.scratch[f] } else { 0 };
            out.set(i, level);
            i += 1;
        }
        if self.playing && got < frames {
            self.playing = false;
        }
        assert(out@ =~= sound(p, slots as nat, channels));
    }
}

/// Playback starts only once [`PREBUFFER_SAMPLES`], 60 ms of sound, have been
/// gathered; until then the speaker is silent and nothing of the queue is lost.
pub proof fn law_silent_until_gathered(p: PlaybackV, slots: nat, channels: u16)
    requires
        !p.playing,
        p.queued.len() < 2880,
    ensures
        after_sound(p, slots, channels).queued == p.queued,
        !after_sound(p, slots, channels).playing,
        forall|i: int| 0 <= i < slots ==> #[trigger] sound(p, slots, channels)[i] == 0,
{
    assert(p.queued.skip(0) =~= p.queued);
    assert forall|i: int| 0 <= i < slots implies #[trigger] sound(p, slots, channels)[i] == 0 by {
        assert(i / lanes(channels) >= 0) by (nonlinear_arith)
            requires
                i >= 0,
                lanes(channels) >= 1,
        ;
    }
}

/// After an underrun the speaker falls silent until enough has been gathered
/// again.
pub proof fn law_underrun_gathers_again(p: PlaybackV, slots: nat, channels: u16)
    requires
        p.queued.len() < slots as int / lanes(channels),
    ensures
        !after_sound(p, slots, channels).playing,
{
}

/// An overrun drops the oldest samples and keeps the newest.
pub proof fn law_overrun_drops_the_oldest(queued: Seq<i16>, samples: Seq<i16>, limit: nat)
    requires
        samples.len() <= limit,
        queued.len() <= limit,
    ensures
        newest(queued + samples, limit).len() <= limit,
        newest(queued + samples, limit).skip(
            newest(queued + samples, limit).len() - samples.len(),
        ) == samples,
{
    let q = newest(queued + samples, limit);
    assert(q.skip(q.len() - samples.len()) =~= samples);
}

// ----------------------------------------------------------------- what holds

/// On the wire each sample takes two bytes, the low one first: together they are
/// the sample, with negative ones counted from 65536 down.
#[verifier::spinoff_prover]
pub proof fn law_low_bytes_come_first(samples: Seq<i16>, i: int)
    requires
        0 <= i < samples.len(),
    ensures
        encoded(samples).len() == 2 * samples.len(),
        encoded(samples)[2 * i] + 256 * encoded(samples)[2 * i + 1] == if samples[i] < 0 {
            samples[i] + 65536
        } else {
            samples[i] as int
        },
{
    let u = unsigned(samples[i]);
    lemma_byte_sample(samples[i]);
    assert(encoded(samples)[2 * i] == (u % 256) as u8);
    assert(encoded(samples)[2 * i + 1] == (u / 256) as u8);
}

/// An odd byte at the end stands for no sample and changes none.
pub proof fn law_odd_bytes_stand_for_nothing(bytes: Seq<u8>, last: u8)
    requires
        bytes.len() % 2 == 0,
    ensures
        decoded(bytes.push(last)) == decoded(bytes),
{
    assert(decoded(bytes.push(last)) =~= decoded(bytes));
}

/// A capture with one channel is passed on as it is.
#[verifier::spinoff_prover]
pub proof fn law_one_channel_stays(data: Seq<i16>)
    ensures
        mixed(data, 1) == data,
        mixed(data, 0) == data,
{
    let n = data.len() as int;
    assert(groups(n, 1) == n);
    assert forall|k: int| 0 <= k < n implies #[trigger] mixed(data, 1)[k] == data[k] && mixed(
        data,
        0,
    )[k] == data[k] by {
        let g = group(data, 1, k);
        assert(g =~= seq![data[k]]);
        reveal_with_fuel(total, 2);
        assert(g.drop_last() =~= Seq::<i16>::empty());
        assert(total(g) == data[k]);
        assert(truncated_div(total(g), 1) == data[k]);
    }
    assert(mixed(data, 1) =~= data);
    assert(mixed(data, 0) =~= data);
}

/// Two channels become one whose samples are halfway between them, rounded toward
/// zero; of an odd sample at the end, half is left.
#[verifier::spinoff_prover]
pub proof fn law_two_channels_are_averaged(data: Seq<i16>, k: int)
    requires
        0 <= k,
        2 * k < data.len(),
    ensures
        mixed(data, 2).len() == (data.len() + 1) / 2,
        ({
            let sum = data[2 * k] + if 2 * k + 1 < data.len() {
                data[2 * k + 1] as int
            } else {
                0
            };
            let m = mixed(data, 2)[k] as int;
            &&& sum >= 0 ==> 2 * m <= sum <= 2 * m + 1
            &&& sum <= 0 ==> 2 * m - 1 <= sum <= 2 * m
        }),
{
    let g = group(data, 2, k);
    reveal_with_fuel(total, 3);
    if 2 * k + 1 < data.len() {
        assert(g =~= seq![data[2 * k], data[2 * k + 1]]);
        assert(g.drop_last() =~= seq![data[2 * k]]);
        assert(g.drop_last().drop_last() =~= Seq::<i16>::empty());
        assert(total(g) == data[2 * k] + data[2 * k + 1]);
    } else {
        assert(g =~= seq![data[2 * k]]);
        assert(g.drop_last() =~= Seq::<i16>::empty());
        assert(total(g) == data[2 * k]);
    }
    assert(lanes(2) == 2);
    assert(groups(data.len() as int, 2) == (data.len() + 1) / 2);
    assert(mixed(data, 2)[k] == truncated_div(total(g), 2) as i16);
}

/// Of any number of channels, each moment becomes one sample: their sum divided
/// by their number, rounded toward zero. There is one sample for each moment,
/// the last of which may lack some channels.
#[verifier::spinoff_prover]
pub proof fn law_channels_are_averaged(data: Seq<i16>, channels: u16, k: int)
    requires
        channels >= 1,
        0 <= k,
        k * channels < data.len(),
    ensures
        k < mixed(data, channels).len(),
        (mixed(data, channels).len() - 1) * channels < data.len() <= mixed(data, channels).len()
            * channels,
        ({
            let end = if (k + 1) * channels <= data.len() {
                (k + 1) * channels
            } else {
                data.len() as int
            };
            let sum = total(data.subrange(k * channels, end));
            let m = mixed(data, channels)[k] as int;
            &&& sum >= 0 ==> m * channels <= sum < (m + 1) * channels
            &&& sum <= 0 ==> (m - 1) * channels < sum <= m * channels
        }),
{
    let w = channels as int;
    let g = group(data, w, k);
    let sum = total(g);
    let n = data.len() as int;
    assert((k + 1) * w == k * w + w && k * w >= 0) by (nonlinear_arith)
        requires
            k >= 0,
            w >= 1,
    ;
    let count = groups(n, w);
    assert(count > k && (count - 1) * w < n <= count * w) by (nonlinear_arith)
        requires
            k * w < n,
            w >= 1,
            count == (n + w - 1) / w,
    ;
    lemma_total_bounds(g);
    lemma_level(sum, g.len() as int, w);
    let m = truncated_div(sum, w);
    if sum >= 0 {
        assert(m * w <= sum < (m + 1) * w) by (nonlinear_arith)
            requires
                m == sum / w,
                w >= 1,
        ;
    } else {
        assert((m - 1) * w < sum <= m * w) by (nonlinear_arith)
            requires
                m == -((-sum) / w),
                w >= 1,
        ;
    }
    if sum == 0 {
        assert(m == 0 && (m - 1) * w < 0 && m * w == 0) by (nonlinear_arith)
            requires
                m == 0int / w,
                w >= 1,
        ;
    }
    assert(mixed(data, channels)[k] == m as i16);
    assert(mixed(data, channels)[k] == m);
}

/// A sum grows by each sample that is added to it.
pub proof fn law_sums_add_up(samples: Seq<i16>, last: i16)
    ensures
        total(Seq::empty()) == 0,
        total(samples.push(last)) == total(samples) + last,
{
    assert(samples.push(last).drop_last() =~= samples);
}

proof fn lemma_total_bounds(samples: Seq<i16>)
    ensures
        -32768 * samples.len() <= total(samples) <= 32767 * samples.len(),
    decreases samples.len(),
{
    if samples.len() > 0 {
        lemma_total_bounds(samples.drop_last());
    }
}

/// A frame is 20 ms of sound: 960 samples at 48 kHz. None is held back: what is
/// left over is less than a frame. Playback gathers three frames, and holds no
/// more than a second.
pub proof fn law_frames_last_twenty_milliseconds(samples: Seq<i16>, i: int)
    ensures
        SAMPLE_RATE == 48_000,
        50 * FRAME_SAMPLES == SAMPLE_RATE,
        3 * FRAME_SAMPLES == PREBUFFER_SAMPLES,
        RING_CAPACITY == SAMPLE_RATE,
        frames_of(samples).len() == samples.len() / 960,
        0 <= i < frames_of(samples).len() ==> frames_of(samples)[i] == samples.subrange(
            960 * i,
            960 * i + 960,
        ),
        rest_of(samples).len() < 960,
{
}

/// Once playback runs, the speaker is given the oldest samples, in order, each on
/// all channels, and these leave the queue; where they run short, silence fills
/// the rest and playback pauses to gather again. It starts with 2880 samples, and
/// goes on with whatever there is.
#[verifier::spinoff_prover]
pub proof fn law_samples_are_played_in_order(p: PlaybackV, frames: nat, channels: u16, i: int)
    requires
        channels >= 1,
        p.playing || p.queued.len() >= 2880,
        frames <= 8192,
        0 <= i < frames * channels,
    ensures
        ({
            let slots = (frames * channels) as nat;
            let out = sound(p, slots, channels);
            let after = after_sound(p, slots, channels);
            let n = if p.queued.len() < frames {
                p.queued.len()
            } else {
                frames
            };
            &&& out.len() == slots
            &&& i / (channels as int) < n ==> out[i] == p.queued[i / (channels as int)]
            &&& i / (channels as int) >= n ==> out[i] == 0
            &&& after.queued == p.queued.skip(n as int)
            &&& after.playing <==> p.queued.len() >= frames
        }),
{
    let c = channels as int;
    assert((frames * channels) as int / c == frames) by (nonlinear_arith)
        requires
            c >= 1,
            c == channels,
    ;
}

/// At one time no more than 8192 samples are played, however many are asked for.
pub proof fn law_large_requests_are_served_in_part(p: PlaybackV, slots: nat, channels: u16, i: int)
    requires
        p.playing || p.queued.len() >= 2880,
        p.queued.len() >= 8192,
        slots as int / lanes(channels) > 8192,
        0 <= i < slots,
    ensures
        sound(p, slots, channels).len() == slots,
        i / lanes(channels) < 8192 ==> sound(p, slots, channels)[i] == p.queued[i / lanes(
            channels,
        )],
        i / lanes(channels) >= 8192 ==> sound(p, slots, channels)[i] == 0,
        after_sound(p, slots, channels).queued == p.queued.skip(8192),
        !after_sound(p, slots, channels).playing,
{
}

/// Nothing is dropped from a queue that has room; one that overflows keeps the
/// end of what it was given, filled to its limit.
pub proof fn law_queues_keep_the_end(samples: Seq<i16>, limit: nat)
    ensures
        newest(samples, limit).is_suffix_of(samples),
        newest(samples, limit).len() == if samples.len() < limit {
            samples.len()
        } else {
            limit
        },
{
    let t = newest(samples, limit);
    assert(t =~= samples.subrange(samples.len() - t.len(), samples.len() as int));
}

} // verus!
