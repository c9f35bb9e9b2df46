//! The client's receive loop as a state machine. The loop holds at most one
//! sink, opened for the format of the last `Spec` message; samples go to it,
//! samples that arrive before any sink are dropped, and frames that do not
//! decode are skipped.

use vstd::prelude::*;

use crate::message::{
    parse, AudioMessage, AudioSpec, DeserializationError, MessageModel, Serializable,
};

verus! {

/// Where the client sends the audio.
#[derive(Clone, Copy, Debug, PartialEq, Eq, Structural)]
pub enum SinkMode {
    /// A WAV file, finalized when the stream ends.
    File,
    /// An audio device, paused when the stream ends.
    Speaker,
}

/// What the loop does with one received frame.
#[derive(Debug)]
pub enum ClientAction {
    /// Close the current sink, if any, and open one for this format.
    OpenSink(AudioSpec),
    /// Hand these samples to the current sink.
    Forward(Vec<i16>),
    /// Samples arrived while no sink is open: drop them.
    Drop,
    /// The frame is not a message: skip it.
    Skip(DeserializationError),
}

/// What the loop does when a sink could not be opened.
#[derive(Clone, Copy, Debug, PartialEq, Eq, Structural)]
pub enum OpenFailure {
    /// Give up: the client exits with an error.
    Abort,
    /// Keep the sink that was open, if any, and go on.
    KeepGoing,
}

/// What the loop does with its sink when the stream ends.
#[derive(Clone, Copy, Debug, PartialEq, Eq, Structural)]
pub enum Shutdown {
    Finalize,
    Pause,
    Nothing,
}

/// The abstract reaction to one frame.
pub ghost enum Reaction {
    Open(AudioSpec),
    Forward(Seq<i16>),
    Drop,
    Skip(DeserializationError),
}

/// The reaction to a frame that decodes to `decoded`, with or without an
/// open sink.
pub open spec fn reaction(
    has_sink: bool,
    decoded: Result<MessageModel, DeserializationError>,
) -> Reaction {
    match decoded {
        Err(e) => Reaction::Skip(e),
        Ok(MessageModel::Spec(s)) => Reaction::Open(s),
        Ok(MessageModel::Samples(b)) => if has_sink {
            Reaction::Forward(b)
        } else {
            Reaction::Drop
        },
    }
}

impl ClientAction {
    pub open spec fn view(&self) -> Reaction {
        match self {
            ClientAction::OpenSink(s) => Reaction::Open(*s),
            ClientAction::Forward(b) => Reaction::Forward(b@),
            ClientAction::Drop => Reaction::Drop,
            ClientAction::Skip(e) => Reaction::Skip(*e),
        }
    }
}

/// The state of one client's receive loop.
pub struct ClientSession {
    mode: SinkMode,
    sink: Option<AudioSpec>,
}

impl ClientSession {
    /// The kind of sink the client writes to.
    pub closed spec fn mode(&self) -> SinkMode {
        self.mode
    }

    /// The format of the open sink, if one is open.
    pub closed spec fn sink(&self) -> Option<AudioSpec> {
        self.sink
    }

    /// A loop with no sink open yet.
    pub fn new(mode: SinkMode) -> (r: ClientSession)
        ensures
            r.mode() == mode,
            r.sink() is None,
    {
        ClientSession { mode, sink: None }
    }

    /// The format of the open sink, if one is open.
    pub fn current_sink(&self) -> (r: Option<AudioSpec>)
        ensures
            r == self.sink(),
    {
        self.sink
    }

    /// Decides what to do with a received frame.
    pub fn on_frame(&self, frame: &[u8]) -> (r: ClientAction)
        ensures
            r.view() == reaction(self.sink() is Some, parse(frame@)),
    {
        match AudioMessage::deserialize(frame) {
            Err(e) => ClientAction::Skip(e),
            Ok(AudioMessage::Spec(s)) => ClientAction::OpenSink(s),
            Ok(AudioMessage::Samples(b)) => {
                if self.sink.is_some() {
                    ClientAction::Forward(b)
                } else {
                    ClientAction::Drop
                }
            },
        }
    }

    /// Records that a sink for `spec` is now open, in place of any other.
    pub fn sink_opened(&mut self, spec: AudioSpec)
        ensures
            final(self).mode() == old(self).mode(),
            final(self).sink() == Some(spec),
    {
        self.sink = Some(spec);
    }

    /// Decides what to do when a sink could not be opened: a file client
    /// gives up, a speaker client keeps what it had.
    pub fn on_open_failed(&self) -> (r: OpenFailure)
        ensures
            self.mode() == SinkMode::File ==> r == OpenFailure::Abort,
            self.mode() == SinkMode::Speaker ==> r == OpenFailure::KeepGoing,
    {
        match self.mode {
            SinkMode::File => OpenFailure::Abort,
            SinkMode::Speaker => OpenFailure::KeepGoing,
        }
    }

    /// Decides what to do with the sink when the stream ends, on a stop
    /// request or when the server goes away: a file is finalized, a speaker
    /// paused; with no sink there is nothing to do. The sink is closed.
    pub fn on_end(&mut self) -> (r: Shutdown)
        ensures
            final(self).mode() == old(self).mode(),
            final(self).sink() is None,
            old(self).sink() is None ==> r == Shutdown::Nothing,
            old(self).sink() is Some && old(self).mode() == SinkMode::File ==> r
                == Shutdown::Finalize,
            old(self).sink() is Some && old(self).mode() == SinkMode::Speaker ==> r
                == Shutdown::Pause,
    {
        let r = match (self.sink.is_some(), self.mode) {
            (false, _) => Shutdown::Nothing,
            (true, SinkMode::File) => Shutdown::Finalize,
            (true, SinkMode::Speaker) => Shutdown::Pause,
        };
        self.sink = None;
        r
    }
}

/// Runs the loop's decisions over `frames`, with every sink opening as
/// asked: whether a sink is open at the end, and how many frames were
/// forwarded to a sink.
pub open spec fn run(frames: Seq<Seq<u8>>) -> (bool, nat)
    decreases frames.len(),
{
    if frames.len() == 0 {
        (false, 0)
    } else {
        let (open, forwarded) = run(frames.drop_last());
        match reaction(open, parse(frames.last())) {
            Reaction::Open(_) => (true, forwarded),
            Reaction::Forward(_) => (open, forwarded + 1),
            _ => (open, forwarded),
        }
    }
}

/// Whether a frame decodes to a `Spec` message.
pub open spec fn is_spec_frame(frame: Seq<u8>) -> bool {
    parse(frame) matches Ok(MessageModel::Spec(_))
}

/// Whether a frame decodes to a `Samples` message.
pub open spec fn is_samples_frame(frame: Seq<u8>) -> bool {
    parse(frame) matches Ok(MessageModel::Samples(_))
}

/// The number of `Samples` frames among `frames` that come after some
/// `Spec` frame.
pub open spec fn samples_after_spec(frames: Seq<Seq<u8>>) -> nat
    decreases frames.len(),
{
    if frames.len() == 0 {
        0
    } else {
        let before = frames.drop_last();
        samples_after_spec(before) + if is_samples_frame(frames.last()) && exists|i: int|
            0 <= i < before.len() && is_spec_frame(#[trigger] before[i]) {
            1nat
        } else {
            0nat
        }
    }
}

/// The loop forwards to a sink exactly the `Samples` messages that arrive
/// once a `Spec` message has opened one; all samples that arrive before any
/// `Spec` are dropped.
pub proof fn lemma_forwarded_samples(frames: Seq<Seq<u8>>)
    ensures
        run(frames).0 <==> exists|i: int| 0 <= i < frames.len() && is_spec_frame(#[trigger] frames[i]),
        run(frames).1 == samples_after_spec(frames),
    decreases frames.len(),
{
    if frames.len() > 0 {
        let before = frames.drop_last();
        lemma_forwarded_samples(before);
        if run(before).0 {
            let i = choose|i: int| 0 <= i < before.len() && is_spec_frame(#[trigger] before[i]);
            assert(frames[i] == before[i]);
        }
        if is_spec_frame(frames.last()) {
            assert(frames[frames.len() - 1] == frames.last());
        }
        if exists|i: int| 0 <= i < frames.len() && is_spec_frame(#[trigger] frames[i]) {
            let i = choose|i: int| 0 <= i < frames.len() && is_spec_frame(#[trigger] frames[i]);
            if i < frames.len() - 1 {
                assert(before[i] == frames[i]);
            }
        }
    }
}

} // verus!
