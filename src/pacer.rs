//! The producer's pacing: samples are grouped into batches of
//! `SAMPLES_PER_GROUP`, each batch is encoded as one `Samples` message, and
//! once more than `INITIAL_BUFFER_SECONDS` of audio has gone out the producer
//! sleeps after each batch for four fifths of the batch's duration.

use vstd::prelude::*;

use crate::message::{
    encoding, AudioMessage, AudioSpec, LengthError, MessageModel, Serializable, MAX_SAMPLES,
};

verus! {

/// Number of samples in a full batch.
pub const SAMPLES_PER_GROUP: usize = 1000;

/// Numerator of the fraction of real time that pacing targets.
pub const PACING_NUMERATOR: u64 = 4;

/// Denominator of the fraction of real time that pacing targets.
pub const PACING_DENOMINATOR: u64 = 5;

/// Seconds of audio sent without pauses, to fill the clients' buffers.
pub const INITIAL_BUFFER_SECONDS: u64 = 3;

/// Microseconds to sleep after each full batch at `sample_rate`: four fifths
/// of the batch's duration, rounded down. A zero rate gives the largest value.
pub open spec fn sleep_micros_for(sample_rate: u32) -> u64 {
    if sample_rate == 0 {
        u64::MAX
    } else {
        ((SAMPLES_PER_GROUP * 1000000 * PACING_NUMERATOR) / (PACING_DENOMINATOR * sample_rate)) as u64
    }
}

/// Number of samples after which pacing starts.
pub open spec fn warm_up_samples(sample_rate: u32) -> u64 {
    (sample_rate * INITIAL_BUFFER_SECONDS) as u64
}

/// Microseconds to sleep after each full batch at `sample_rate`.
pub fn pacing_sleep_micros(sample_rate: u32) -> (r: u64)
    ensures
        r == sleep_micros_for(sample_rate),
{
    if sample_rate == 0 {
        u64::MAX
    } else {
        (SAMPLES_PER_GROUP as u64 * 1000000 * PACING_NUMERATOR) / (PACING_DENOMINATOR
            * sample_rate as u64)
    }
}

/// The encoded `Spec` message announcing a stream of format `spec`.
pub fn spec_payload(spec: &AudioSpec) -> (r: Vec<u8>)
    ensures
        r@ == encoding(MessageModel::Spec(*spec)),
{
    let mut buf: Vec<u8> = Vec::new();
    let msg = AudioMessage::Spec(*spec);
    let _ = msg.serialize(&mut buf);
    assert(buf@ =~= encoding(MessageModel::Spec(*spec)));
    buf
}

/// The encoded `Samples` message carrying `samples`; `TooLong` when it
/// holds more than `MAX_SAMPLES` samples.
pub fn samples_payload(samples: &Vec<i16>) -> (r: Result<Vec<u8>, LengthError>)
    ensures
        samples@.len() <= MAX_SAMPLES ==> (r matches Ok(p) && p@ == encoding(
            MessageModel::Samples(samples@),
        )),
        samples@.len() > MAX_SAMPLES ==> r == Err::<Vec<u8>, LengthError>(
            LengthError::TooLong { len: samples@.len() as usize },
        ),
{
    let mut buf: Vec<u8> = Vec::new();
    let msg = AudioMessage::Samples(samples.clone());
    match msg.serialize(&mut buf) {
        Ok(()) => {
            assert(buf@ =~= encoding(MessageModel::Samples(samples@)));
            Ok(buf)
        },
        Err(e) => Err(e),
    }
}

/// The encoded `Samples` message for a group of the pacer, which always
/// fits.
fn group_payload(group: &Vec<i16>) -> (r: Vec<u8>)
    requires
        group@.len() <= SAMPLES_PER_GROUP,
    ensures
        r@ == encoding(MessageModel::Samples(group@)),
{
    match samples_payload(group) {
        Ok(p) => p,
        Err(_) => Vec::new(),
    }
}

/// One batch ready to be broadcast, and the pause that follows it.
pub struct Batch {
    pub payload: Vec<u8>,
    pub sleep_micros: Option<u64>,
}

/// Pacing state of one stream.
pub struct Pacer {
    sample_rate: u32,
    sleep_micros: u64,
    group: Vec<i16>,
    sent: u64,
    groups: Ghost<nat>,
}

impl Pacer {
    /// The stream's sample rate.
    pub closed spec fn rate(&self) -> u32 {
        self.sample_rate
    }

    /// Samples accepted but not yet handed out in a batch.
    pub closed spec fn pending(&self) -> Seq<i16> {
        self.group@
    }

    /// Samples handed out in full batches so far (saturating).
    pub closed spec fn sent(&self) -> u64 {
        self.sent
    }

    /// Full groups handed out so far.
    pub closed spec fn groups(&self) -> nat {
        self.groups@
    }

    /// Well-formedness: the pending group is never full, the sleep time
    /// matches the rate, and the sent count is that of the full groups.
    pub closed spec fn wf(&self) -> bool {
        &&& self.group@.len() < SAMPLES_PER_GROUP
        &&& self.sleep_micros == sleep_micros_for(self.sample_rate)
        &&& self.sent == if SAMPLES_PER_GROUP * self.groups@ > u64::MAX {
            u64::MAX
        } else {
            (SAMPLES_PER_GROUP * self.groups@) as u64
        }
    }

    /// Pacing for a new stream of format `spec`.
    pub fn new(spec: &AudioSpec) -> (r: Pacer)
        ensures
            r.wf(),
            r.rate() == spec.sample_rate,
            r.pending() == Seq::<i16>::empty(),
            r.sent() == 0,
            r.groups() == 0,
    {
        Pacer {
            sample_rate: spec.sample_rate,
            sleep_micros: pacing_sleep_micros(spec.sample_rate),
            group: Vec::with_capacity(SAMPLES_PER_GROUP),
            sent: 0,
            groups: Ghost(0),
        }
    }

    /// Takes one sample. When it completes a group, returns the group as an
    /// encoded `Samples` message, with the pause to take after broadcasting
    /// it: none until more than the warm-up amount has been sent, counting
    /// this group.
    pub fn push_sample(&mut self, sample: i16) -> (r: Option<Batch>)
        requires
            old(self).wf(),
        ensures
            final(self).wf(),
            final(self).rate() == old(self).rate(),
            old(self).pending().len() + 1 < SAMPLES_PER_GROUP ==> {
                &&& r is None
                &&& final(self).pending() == old(self).pending().push(sample)
                &&& final(self).sent() == old(self).sent()
                &&& final(self).groups() == old(self).groups()
            },
            old(self).pending().len() + 1 == SAMPLES_PER_GROUP ==> {
                &&& r is Some
                &&& r->Some_0.payload@ == encoding(
                    MessageModel::Samples(old(self).pending().push(sample)),
                )
                &&& final(self).pending() == Seq::<i16>::empty()
                &&& final(self).groups() == old(self).groups() + 1
                &&& (r->Some_0.sleep_micros is Some <==> SAMPLES_PER_GROUP * final(self).groups()
                    > warm_up_samples(old(self).rate()))
                &&& final(self).sent() == if old(self).sent() > u64::MAX - SAMPLES_PER_GROUP {
                    u64::MAX
                } else {
                    (old(self).sent() + SAMPLES_PER_GROUP) as u64
                }
                &&& r->Some_0.sleep_micros == if final(self).sent() > warm_up_samples(
                    old(self).rate(),
                ) {
                    Some(sleep_micros_for(old(self).rate()))
                } else {
                    None::<u64>
                }
            },
    {
        self.group.push(sample);
        if self.group.len() < SAMPLES_PER_GROUP {
            return None;
        }
        let payload = group_payload(&self.group);
        self.group.clear();
        self.sent = if self.sent > u64::MAX - SAMPLES_PER_GROUP as u64 {
            u64::MAX
        } else {
            self.sent + SAMPLES_PER_GROUP as u64
        };
        self.groups = Ghost(self.groups@ + 1);
        let sleep_micros = if self.sent > self.sample_rate as u64 * INITIAL_BUFFER_SECONDS {
            Some(self.sleep_micros)
        } else {
            None
        };
        Some(Batch { payload, sleep_micros })
    }

    /// Ends the stream: the last, partial group as an encoded `Samples`
    /// message, or `None` when no sample is pending.
    pub fn finish(&mut self) -> (r: Option<Vec<u8>>)
        requires
            old(self).wf(),
        ensures
            final(self).wf(),
            final(self).rate() == old(self).rate(),
            final(self).sent() == old(self).sent(),
            final(self).groups() == old(self).groups(),
            final(self).pending() == Seq::<i16>::empty(),
            old(self).pending().len() == 0 ==> r is None,
            old(self).pending().len() > 0 ==> (r matches Some(p) && p@ == encoding(
                MessageModel::Samples(old(self).pending()),
            )),
    {
        if self.group.len() == 0 {
            return None;
        }
        let payload = group_payload(&self.group);
        self.group.clear();
        Some(payload)
    }
}

/// Phases of streaming one source. The greeting is set before the first
/// phase; entering `Streaming` broadcasts the format descriptor.
#[derive(Clone, Copy, Debug, PartialEq, Eq, Structural)]
pub enum StreamPhase {
    /// No peer yet: poll the peer count.
    AwaitingPeers,
    /// Send the source's samples in paced batches.
    Streaming,
    /// The source is exhausted: poll until every peer has left.
    Draining,
    /// Nothing left to do.
    Finished,
}

/// The phase after `phase`, given the current peer count and whether the
/// source is exhausted.
pub fn next_phase(phase: StreamPhase, peer_count: usize, source_done: bool) -> (r: StreamPhase)
    ensures
        phase == StreamPhase::AwaitingPeers ==> r == if peer_count > 0 {
            StreamPhase::Streaming
        } else {
            StreamPhase::AwaitingPeers
        },
        phase == StreamPhase::Streaming ==> r == if source_done {
            StreamPhase::Draining
        } else {
            StreamPhase::Streaming
        },
        phase == StreamPhase::Draining ==> r == if peer_count == 0 {
            StreamPhase::Finished
        } else {
            StreamPhase::Draining
        },
        phase == StreamPhase::Finished ==> r == StreamPhase::Finished,
{
    match phase {
        StreamPhase::AwaitingPeers => if peer_count > 0 {
            StreamPhase::Streaming
        } else {
            StreamPhase::AwaitingPeers
        },
        StreamPhase::Streaming => if source_done {
            StreamPhase::Draining
        } else {
            StreamPhase::Streaming
        },
        StreamPhase::Draining => if peer_count == 0 {
            StreamPhase::Finished
        } else {
            StreamPhase::Draining
        },
        StreamPhase::Finished => StreamPhase::Finished,
    }
}

} // verus!
