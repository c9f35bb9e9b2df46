//! The playback side of the client: a single-producer single-consumer ring
//! buffer of samples between the receive loop and the audio device's
//! callback, the callback's frame filling, and the naming of output devices.
//!
//! The two halves of the ring buffer live on two threads, so what one half
//! observes of the other can change between any two calls: the contracts
//! below say only what holds whatever the other thread does.

use ringbuf::traits::{Consumer, Observer, Producer, Split};
use vstd::prelude::*;

verus! {

/// Capacity of the ring buffer: ten seconds of 44.1 kHz stereo.
pub const RING_CAPACITY: usize = 882000;

/// The producer end of the ring buffer. The ring buffer's types carry
/// bounds on ringbuf's own traits, which Verus does not take, so the
/// producer is held here out of Verus's sight.
#[verifier::external_body]
pub struct RingProducer {
    producer: ringbuf::HeapProd<i16>,
}

/// The consumer end of the ring buffer, held out of Verus's sight for the
/// same reason as `RingProducer`.
#[verifier::external_body]
pub struct RingConsumer {
    consumer: ringbuf::HeapCons<i16>,
}

/// The free places of the ring buffer as the producer last saw them. Only
/// the producer fills places and the consumer only frees them, so the
/// places really free are never fewer.
pub uninterp spec fn free_seen(ring: RingProducer) -> nat;

/// Relies on `ringbuf::HeapRb::new` and `Split::split`: an empty ring
/// buffer of `capacity` samples, as its producer and consumer ends.
/// `HeapRb::new` panics on a zero capacity.
#[verifier::external_body]
fn heap_ring(capacity: usize) -> (r: (RingProducer, RingConsumer))
    requires
        capacity > 0,
    ensures
        free_seen(r.0) == capacity,
{
    let (producer, consumer) = ringbuf::HeapRb::<i16>::new(capacity).split();
    (RingProducer { producer }, RingConsumer { consumer })
}

impl RingProducer {
    /// Relies on `ringbuf::traits::Observer::vacant_len`: the producer end
    /// fetches the consumer's position and returns the free places. The
    /// consumer only frees places, so the count never falls between two
    /// looks without a push in between.
    #[verifier::external_body]
    fn vacant_len(&mut self) -> (r: usize)
        ensures
            r as nat == free_seen(*final(self)),
            free_seen(*final(self)) >= free_seen(*old(self)),
    {
        self.producer.vacant_len()
    }

    /// Relies on `ringbuf::traits::Producer::push_slice`: appends the
    /// longest prefix of `samples` that fits in the free places and returns
    /// its length; all of it when it fits in the places last seen free.
    #[verifier::external_body]
    fn push_slice(&mut self, samples: &[i16]) -> (n: usize)
        ensures
            n <= samples@.len(),
            samples@.len() <= free_seen(*old(self)) ==> n == samples@.len(),
    {
        self.producer.push_slice(samples)
    }
}

/// The receive loop's end of the ring buffer, with a record of every
/// sample it put in, oldest first.
pub struct SampleFeed {
    ring: RingProducer,
    pushed: Ghost<Seq<i16>>,
}

/// The device callback's end of the ring buffer, with a record of what it
/// took out.
pub struct SampleTap {
    ring: RingConsumer,
    pops: Ghost<Seq<Option<i16>>>,
}

/// A ring buffer of `capacity` samples, as its two ends: empty, so the
/// producer sees `capacity` free places, nothing put in and nothing taken
/// out yet.
pub fn sample_channel(capacity: usize) -> (r: (SampleFeed, SampleTap))
    requires
        capacity > 0,
    ensures
        r.0.free() == capacity,
        r.0.pushed() == Seq::<i16>::empty(),
        r.1.pops() == Seq::<Option<i16>>::empty(),
{
    let (producer, consumer) = heap_ring(capacity);
    (
        SampleFeed { ring: producer, pushed: Ghost(Seq::empty()) },
        SampleTap { ring: consumer, pops: Ghost(Seq::empty()) },
    )
}

impl SampleFeed {
    /// The free places as this end last saw them.
    pub closed spec fn free(&self) -> nat {
        free_seen(self.ring)
    }

    /// Every sample this end put into the buffer, oldest first.
    pub closed spec fn pushed(&self) -> Seq<i16> {
        self.pushed@
    }

    /// Pushes the whole batch when the buffer has room for all of it now and
    /// returns its length; returns `None`, pushing nothing, when it has not.
    /// Never pushes part of a batch. A caller that must not drop samples
    /// waits and tries again.
    pub fn push_if_room(&mut self, samples: &[i16]) -> (r: Option<usize>)
        ensures
            r matches Some(n) ==> n == samples@.len() && final(self).pushed() == old(self).pushed()
                + samples@,
            r is None ==> final(self).free() < samples@.len() && final(self).pushed() == old(
                self,
            ).pushed(),
            samples@.len() <= old(self).free() ==> r == Some(samples@.len() as usize),
    {
        if self.ring.vacant_len() < samples.len() {
            None
        } else {
            let n = self.ring.push_slice(samples);
            self.pushed = Ghost(self.pushed@ + samples@);
            Some(n)
        }
    }
}

impl RingConsumer {
    /// Relies on `ringbuf::traits::Consumer::try_pop`: the eldest sample, or
    /// `None` when the buffer is empty.
    #[verifier::external_body]
    fn try_pop(&mut self) -> Option<i16> {
        self.consumer.try_pop()
    }
}

/// The sample played for what a pop gave: the popped sample, or silence
/// when the buffer was empty.
pub open spec fn played(popped: Option<i16>) -> i16 {
    match popped {
        Some(s) => s,
        None => 0,
    }
}

/// The sample played for what a pop gave: the popped sample, or silence
/// when the buffer was empty.
pub fn sample_or_silence(popped: Option<i16>) -> (r: i16)
    ensures
        r == played(popped),
{
    match popped {
        Some(s) => s,
        None => 0,
    }
}

impl SampleTap {
    /// What each pop of this end gave, oldest first.
    pub closed spec fn pops(&self) -> Seq<Option<i16>> {
        self.pops@
    }

    /// The next sample to play: the eldest buffered one, or silence when the
    /// buffer is empty. Pops once and never waits.
    pub fn next_sample(&mut self) -> (r: i16)
        ensures
            final(self).pops().len() == old(self).pops().len() + 1,
            final(self).pops().drop_last() == old(self).pops(),
            r == played(final(self).pops().last()),
    {
        let popped = self.ring.try_pop();
        self.pops = Ghost(self.pops@.push(popped));
        proof {
            assert(self.pops@.drop_last() =~= old(self).pops@);
        }
        sample_or_silence(popped)
    }
}

/// Fills `out` frame by frame, each frame `frame_len` slots (the last one
/// possibly shorter): frame `k` takes the next pop of the tap and holds the
/// played sample in every slot. Pops once per frame, never waits and never
/// allocates.
pub fn fill_frames(tap: &mut SampleTap, out: &mut [i16], frame_len: usize)
    requires
        frame_len > 0,
    ensures
        final(out)@.len() == old(out)@.len(),
        final(tap).pops().len() == old(tap).pops().len() + (old(out)@.len() + frame_len - 1)
            / frame_len as int,
        final(tap).pops().take(old(tap).pops().len() as int) == old(tap).pops(),
        forall|i: int|
            0 <= i < old(out)@.len() ==> #[trigger] final(out)@[i] == played(
                final(tap).pops()[old(tap).pops().len() + i / frame_len as int],
            ),
{
    let ghost base = tap.pops().len();
    let ghost fl = frame_len as int;
    let len = out.len();
    let mut start: usize = 0;
    while start < len
        invariant
            out@.len() == len,
            fl == frame_len as int,
            fl > 0,
            start <= len,
            tap.pops().len() >= base,
            tap.pops().take(base as int) == old(tap).pops(),
            base == old(tap).pops().len(),
            start < len ==> start == (tap.pops().len() - base) * fl,
            tap.pops().len() == base ==> start == 0,
            tap.pops().len() > base ==> (tap.pops().len() - base - 1) * fl < start <= (
            tap.pops().len() - base) * fl,
            forall|i: int|
                0 <= i < start ==> #[trigger] out@[i] == played(tap.pops()[base + i / fl]),
        decreases len - start,
    {
        let ghost k = tap.pops().len() - base;
        let ghost before = tap.pops();
        let s = tap.next_sample();
        let end = if len - start < frame_len {
            len
        } else {
            start + frame_len
        };
        let ghost prefix = out@;
        let mut j: usize = start;
        while j < end
            invariant
                out@.len() == len,
                prefix.len() == len,
                start <= j <= end <= len,
                forall|i: int| 0 <= i < start ==> #[trigger] out@[i] == prefix[i],
                forall|i: int| start <= i < j ==> #[trigger] out@[i] == s,
            decreases end - j,
        {
            out[j] = s;
            j += 1;
        }
        proof {
            let st = start as int;
            assert(st == k * fl);
            assert(tap.pops().drop_last() == before);
            assert forall|i: int| 0 <= i < end implies #[trigger] out@[i] == played(
                tap.pops()[base + i / fl],
            ) by {
                if i < st {
                    assert(out@[i] == prefix[i]);
                    assert(0 <= i / fl < k) by (nonlinear_arith)
                        requires
                            0 <= i < st,
                            st == k * fl,
                            fl > 0,
                    ;
                    assert(tap.pops()[base + i / fl] == before[base + i / fl]);
                } else {
                    assert(i / fl == k) by (nonlinear_arith)
                        requires
                            st <= i < st + fl,
                            st == k * fl,
                            fl > 0,
                    ;
                }
            }
            assert(tap.pops().take(base as int) =~= before.take(base as int));
            assert((k + 1) * fl == st + fl) by (nonlinear_arith)
                requires
                    st == k * fl,
            ;
            assert(k * fl < end) by (nonlinear_arith)
                requires
                    st == k * fl,
                    st < end,
            ;
        }
        start = end;
    }
    proof {
        let k = tap.pops().len() - base;
        let n = len as int;
        if k == 0 {
            assert(n == 0);
            assert((n + fl - 1) / fl == 0) by (nonlinear_arith)
                requires
                    n == 0,
                    fl > 0,
            ;
        } else {
            assert((n + fl - 1) / fl == k) by (nonlinear_arith)
                requires
                    (k - 1) * fl < n <= k * fl,
                    fl > 0,
                    k > 0,
            ;
        }
    }
}

/// The decimal digit `d`.
pub open spec fn digit_char(d: nat) -> char {
    if d == 0 {
        '0'
    } else if d == 1 {
        '1'
    } else if d == 2 {
        '2'
    } else if d == 3 {
        '3'
    } else if d == 4 {
        '4'
    } else if d == 5 {
        '5'
    } else if d == 6 {
        '6'
    } else if d == 7 {
        '7'
    } else if d == 8 {
        '8'
    } else {
        '9'
    }
}

/// Decimal notation of `n`, without leading zeros.
pub open spec fn decimal(n: nat) -> Seq<char>
    decreases n,
{
    if n < 10 {
        seq![digit_char(n)]
    } else {
        decimal(n / 10) + seq![digit_char(n % 10)]
    }
}

fn digit_str(d: usize) -> (r: &'static str)
    requires
        d < 10,
    ensures
        r@ == seq![digit_char(d as nat)],
{
    proof {
        reveal_strlit("0");
        reveal_strlit("1");
        reveal_strlit("2");
        reveal_strlit("3");
        reveal_strlit("4");
        reveal_strlit("5");
        reveal_strlit("6");
        reveal_strlit("7");
        reveal_strlit("8");
        reveal_strlit("9");
    }
    let r = if d == 0 {
        "0"
    } else if d == 1 {
        "1"
    } else if d == 2 {
        "2"
    } else if d == 3 {
        "3"
    } else if d == 4 {
        "4"
    } else if d == 5 {
        "5"
    } else if d == 6 {
        "6"
    } else if d == 7 {
        "7"
    } else if d == 8 {
        "8"
    } else {
        "9"
    };
    assert(r@ =~= seq![digit_char(d as nat)]);
    r
}

/// Decimal notation of `n`.
pub fn decimal_string(n: usize) -> (r: String)
    ensures
        r@ == decimal(n as nat),
    decreases n,
{
    if n < 10 {
        String::from_str(digit_str(n))
    } else {
        let front = decimal_string(n / 10);
        front.concat(digit_str(n % 10))
    }
}

/// The name shown for the output device at `index`: its own name, or
/// `Unknown Device <index>` when the host cannot give one.
pub open spec fn device_label_of(index: nat, name: Option<Seq<char>>) -> Seq<char> {
    match name {
        Some(n) => n,
        None => "Unknown Device "@ + decimal(index),
    }
}

/// The view of an optional name.
pub open spec fn name_view(name: Option<String>) -> Option<Seq<char>> {
    match name {
        Some(n) => Some(n@),
        None => None,
    }
}

/// The name shown for the output device at `index`.
pub fn device_label(index: usize, name: &Option<String>) -> (r: String)
    ensures
        r@ == device_label_of(index as nat, name_view(*name)),
{
    match name {
        Some(n) => n.clone(),
        None => String::from_str("Unknown Device ").concat(decimal_string(index).as_str()),
    }
}

/// The names shown for a host's output devices, in the host's order.
pub fn device_labels(names: &Vec<Option<String>>) -> (r: Vec<String>)
    ensures
        r@.len() == names@.len(),
        forall|i: int|
            0 <= i < r@.len() ==> (#[trigger] r@[i])@ == device_label_of(i as nat, name_view(names@[i])),
{
    let mut out: Vec<String> = Vec::new();
    let mut i: usize = 0;
    while i < names.len()
        invariant
            i <= names@.len(),
            out@.len() == i,
            forall|k: int|
                0 <= k < i ==> (#[trigger] out@[k])@ == device_label_of(k as nat, name_view(names@[k])),
        decreases names@.len() - i,
    {
        out.push(device_label(i, &names[i]));
        i += 1;
    }
    out
}

/// The index of the first output device shown as `target`, if any.
pub fn find_device(names: &Vec<Option<String>>, target: &str) -> (r: Option<usize>)
    ensures
        r matches Some(i) ==> i < names@.len() && device_label_of(i as nat, name_view(names@[i as int]))
            == target@ && forall|j: int| 0 <= j < i ==> device_label_of(j as nat, name_view(#[trigger] names@[j])) != target@,
        r is None ==> forall|j: int|
            0 <= j < names@.len() ==> device_label_of(j as nat, name_view(#[trigger] names@[j])) != target@,
{
    let wanted = String::from_str(target);
    let mut i: usize = 0;
    while i < names.len()
        invariant
            i <= names@.len(),
            wanted@ == target@,
            forall|j: int|
                0 <= j < i ==> device_label_of(j as nat, name_view(#[trigger] names@[j])) != target@,
        decreases names@.len() - i,
    {
        let label = device_label(i, &names[i]);
        if label == wanted {
            return Some(i);
        }
        i += 1;
    }
    None
}

} // verus!
