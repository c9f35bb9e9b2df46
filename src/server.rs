//! Bookkeeping of the broadcast server: the greeting replayed to each new
//! peer, the set of live peers, and a broadcast that keeps exactly the peers
//! that took the frame.
//!
//! Each peer carries, as ghost state, the payloads of the frames that were
//! written to it whole, in order. The frame reader of `frame` turns such a
//! stream back into the same payloads.

use vstd::prelude::*;

use crate::frame::{frame_bytes, lemma_frame_read_back, next_frame};

verus! {

/// A connection that frames can be written to.
pub trait FrameSink {
    /// Writes one frame holding `payload`; returns whether it was written
    /// whole. A connection that reports a failure is not written to again.
    fn write_frame(&mut self, payload: &[u8]) -> bool;
}

/// A connection together with the payloads written to it so far.
pub struct Peer<C> {
    conn: C,
    sent: Ghost<Seq<Seq<u8>>>,
    tried: Ghost<Seq<Seq<u8>>>,
}

impl<C> Peer<C> {
    /// The payloads of the frames written whole to this peer, oldest first.
    pub closed spec fn frames(&self) -> Seq<Seq<u8>> {
        self.sent@
    }

    /// The payloads of every frame a write was attempted for, oldest first.
    pub closed spec fn attempts(&self) -> Seq<Seq<u8>> {
        self.tried@
    }

    /// The underlying connection.
    pub closed spec fn connection(&self) -> C {
        self.conn
    }

    /// A newly accepted connection, with nothing written to it yet.
    pub fn new(conn: C) -> (r: Peer<C>)
        ensures
            r.connection() == conn,
            r.frames() == Seq::<Seq<u8>>::empty(),
            r.attempts() == Seq::<Seq<u8>>::empty(),
    {
        Peer { conn, sent: Ghost(Seq::empty()), tried: Ghost(Seq::empty()) }
    }
}

impl<C: FrameSink> Peer<C> {
    /// Writes one frame to the peer; the payload joins its record only when
    /// the write succeeded.
    pub fn send(&mut self, payload: &[u8]) -> (ok: bool)
        ensures
            final(self).attempts() == old(self).attempts().push(payload@),
            ok ==> final(self).frames() == old(self).frames().push(payload@),
            !ok ==> final(self).frames() == old(self).frames(),
    {
        let ok = self.conn.write_frame(payload);
        self.tried = Ghost(self.tried@.push(payload@));
        if ok {
            self.sent = Ghost(self.sent@.push(payload@));
        }
        ok
    }
}

/// The payload replayed to every newly accepted peer; empty until first set.
pub struct Greeting {
    payload: Vec<u8>,
}

impl Greeting {
    /// The current greeting payload.
    pub closed spec fn view(&self) -> Seq<u8> {
        self.payload@
    }

    /// An empty greeting slot.
    pub fn new() -> (r: Greeting)
        ensures
            r.view() == Seq::<u8>::empty(),
    {
        Greeting { payload: Vec::new() }
    }

    /// Replaces the greeting with a copy of `data`.
    pub fn set(&mut self, data: &[u8])
        ensures
            final(self).view() == data@,
    {
        self.payload.clear();
        self.payload.extend_from_slice(data);
    }

    /// A copy of the greeting for a new peer; `None` while it is empty.
    pub fn for_new_peer(&self) -> (r: Option<Vec<u8>>)
        ensures
            r is None <==> self.view().len() == 0,
            r matches Some(g) ==> g@ == self.view(),
    {
        if self.payload.len() == 0 {
            None
        } else {
            Some(self.payload.clone())
        }
    }
}

/// Greets a newly accepted peer: writes `greeting` to it, when there is one.
/// Returns whether the peer may join the set, which is when there was no
/// greeting or it was written whole. A fresh peer that joins has exactly the
/// greeting on record, and nothing when there was none.
pub fn greet<C: FrameSink>(peer: &mut Peer<C>, greeting: &Option<Vec<u8>>) -> (ok: bool)
    ensures
        greeting is None ==> ok && *final(peer) == *old(peer),
        greeting matches Some(g) ==> {
            &&& final(peer).attempts() == old(peer).attempts().push(g@)
            &&& ok ==> final(peer).frames() == old(peer).frames().push(g@)
            &&& !ok ==> final(peer).frames() == old(peer).frames()
        },
{
    match greeting {
        None => true,
        Some(g) => peer.send(g.as_slice()),
    }
}

/// The live peers of the server.
pub struct PeerSet<C> {
    peers: Vec<Peer<C>>,
}

impl<C> View for PeerSet<C> {
    type V = Seq<Peer<C>>;

    closed spec fn view(&self) -> Seq<Peer<C>> {
        self.peers@
    }
}

impl<C> PeerSet<C> {
    /// An empty set.
    pub fn new() -> (r: PeerSet<C>)
        ensures
            r@ == Seq::<Peer<C>>::empty(),
    {
        PeerSet { peers: Vec::new() }
    }

    /// The number of peers.
    pub fn len(&self) -> (r: usize)
        ensures
            r == self@.len(),
    {
        self.peers.len()
    }

    /// Adds a peer at the front.
    pub fn insert(&mut self, peer: Peer<C>)
        ensures
            final(self)@ == seq![peer] + old(self)@,
    {
        self.peers.insert(0, peer);
        assert(self@ =~= seq![peer] + old(self)@);
    }

    /// Takes every peer out of the set, in order.
    pub fn take_all(&mut self) -> (r: Vec<Peer<C>>)
        ensures
            r@ == old(self)@,
            final(self)@ == Seq::<Peer<C>>::empty(),
    {
        let mut taken: Vec<Peer<C>> = Vec::new();
        std::mem::swap(&mut taken, &mut self.peers);
        taken
    }

    /// Puts peers back at the end of the set, in order.
    pub fn restore(&mut self, peers: Vec<Peer<C>>)
        ensures
            final(self)@ == old(self)@ + peers@,
    {
        let mut rest = peers;
        self.peers.append(&mut rest);
    }
}

/// The peers whose entry in `delivered` equals `which`, in their order.
pub open spec fn kept<C>(peers: Seq<Peer<C>>, delivered: Seq<bool>, which: bool) -> Seq<Peer<C>>
    decreases peers.len(),
{
    if peers.len() == 0 || delivered.len() == 0 {
        Seq::empty()
    } else {
        let front = kept(peers.drop_last(), delivered.drop_last(), which);
        if delivered.last() == which {
            front.push(peers.last())
        } else {
            front
        }
    }
}

/// Every peer is kept on exactly one side of a mask of the same length.
proof fn lemma_kept_lengths<C>(peers: Seq<Peer<C>>, delivered: Seq<bool>)
    requires
        delivered.len() == peers.len(),
    ensures
        kept(peers, delivered, true).len() + kept(peers, delivered, false).len() == peers.len(),
    decreases peers.len(),
{
    if peers.len() > 0 {
        lemma_kept_lengths(peers.drop_last(), delivered.drop_last());
    }
}

/// What a broadcast did: the peers that took the frame whole, those that
/// did not, and for each peer in the given order whether it took it.
pub struct BroadcastOutcome<C> {
    pub survivors: Vec<Peer<C>>,
    pub dropped: Vec<Peer<C>>,
    pub delivered: Vec<bool>,
}

/// Whether `after` is `before` once a write of `data` was attempted, and
/// succeeded exactly when `ok`.
pub open spec fn wrote<C>(before: Peer<C>, after: Peer<C>, data: Seq<u8>, ok: bool) -> bool {
    &&& after.attempts() == before.attempts().push(data)
    &&& after.frames() == if ok {
        before.frames().push(data)
    } else {
        before.frames()
    }
}

/// Writes one frame holding `data` to each peer in turn. The survivors are
/// exactly the peers whose write succeeded, in their order, each with
/// `data` added to its record: the next frame it reads is `data`. The
/// others are handed back as dropped, with nothing added to their record.
pub fn broadcast_to<C: FrameSink>(peers: Vec<Peer<C>>, data: &[u8]) -> (r: BroadcastOutcome<C>)
    ensures
        r.delivered@.len() == peers@.len(),
        r.survivors@.len() + r.dropped@.len() == peers@.len(),
        r.survivors@.len() == kept(peers@, r.delivered@, true).len(),
        r.dropped@.len() == kept(peers@, r.delivered@, false).len(),
        forall|i: int|
            0 <= i < r.survivors@.len() ==> wrote(
                kept(peers@, r.delivered@, true)[i],
                #[trigger] r.survivors@[i],
                data@,
                true,
            ),
        forall|i: int|
            0 <= i < r.dropped@.len() ==> wrote(
                kept(peers@, r.delivered@, false)[i],
                #[trigger] r.dropped@[i],
                data@,
                false,
            ),
{
    let ghost given = peers@;
    let ghost n = peers@.len();
    let mut survivors: Vec<Peer<C>> = Vec::new();
    let mut dropped: Vec<Peer<C>> = Vec::new();
    let mut delivered: Vec<bool> = Vec::new();
    let mut rest = peers;
    while rest.len() > 0
        invariant
            rest@.len() <= n,
            n == given.len(),
            rest@ == given.subrange(n - rest@.len(), n as int),
            delivered@.len() == n - rest@.len(),
            survivors@.len() == kept(given.take(n - rest@.len()), delivered@, true).len(),
            dropped@.len() == kept(given.take(n - rest@.len()), delivered@, false).len(),
            forall|i: int|
                0 <= i < survivors@.len() ==> wrote(
                    kept(given.take(n - rest@.len()), delivered@, true)[i],
                    #[trigger] survivors@[i],
                    data@,
                    true,
                ),
            forall|i: int|
                0 <= i < dropped@.len() ==> wrote(
                    kept(given.take(n - rest@.len()), delivered@, false)[i],
                    #[trigger] dropped@[i],
                    data@,
                    false,
                ),
        decreases rest@.len(),
    {
        let ghost k = n - rest@.len();
        let ghost d0 = delivered@;
        let ghost s0 = survivors@;
        let ghost x0 = dropped@;
        let mut peer = rest.remove(0);
        let ghost p0 = peer;
        let ok = peer.send(data);
        delivered.push(ok);
        if ok {
            survivors.push(peer);
        } else {
            dropped.push(peer);
        }
        proof {
            assert(p0 == given[k]);
            assert(given.take(k + 1).drop_last() =~= given.take(k));
            assert(delivered@.drop_last() =~= d0);
            assert(given.take(k + 1).last() == given[k]);
            assert(rest@ =~= given.subrange(n - rest@.len(), n as int));
            let now_s = kept(given.take(k + 1), delivered@, true);
            let was_s = kept(given.take(k), d0, true);
            let now_x = kept(given.take(k + 1), delivered@, false);
            let was_x = kept(given.take(k), d0, false);
            assert(now_s == if ok { was_s.push(given[k]) } else { was_s });
            assert(now_x == if !ok { was_x.push(given[k]) } else { was_x });
            assert forall|i: int| 0 <= i < survivors@.len() implies wrote(
                now_s[i],
                #[trigger] survivors@[i],
                data@,
                true,
            ) by {
                if i < s0.len() {
                    assert(survivors@[i] == s0[i]);
                    assert(now_s[i] == was_s[i]);
                }
            }
            assert forall|i: int| 0 <= i < dropped@.len() implies wrote(
                now_x[i],
                #[trigger] dropped@[i],
                data@,
                false,
            ) by {
                if i < x0.len() {
                    assert(dropped@[i] == x0[i]);
                    assert(now_x[i] == was_x[i]);
                }
            }
        }
    }
    assert(given.take(n as int) =~= given);
    proof {
        lemma_kept_lengths(given, delivered@);
    }
    BroadcastOutcome { survivors, dropped, delivered }
}

/// The bytes a peer has been sent, frame after frame.
pub open spec fn sent_bytes(frames: Seq<Seq<u8>>) -> Seq<u8>
    decreases frames.len(),
{
    if frames.len() == 0 {
        Seq::empty()
    } else {
        sent_bytes(frames.drop_last()) + frame_bytes(frames.last())
    }
}

/// A peer that survives a broadcast of `data` (its record grew by `data`)
/// has been sent the frame for `data` right after everything it was sent
/// before, and a reader that has taken those earlier frames reads exactly
/// `data` next.
pub proof fn lemma_survivor_reads_broadcast<C>(
    before: Peer<C>,
    after: Peer<C>,
    data: Seq<u8>,
    max: nat,
)
    requires
        after.frames() == before.frames().push(data),
        data.len() <= max,
        data.len() <= u32::MAX,
    ensures
        sent_bytes(after.frames()) == sent_bytes(before.frames()) + frame_bytes(data),
        next_frame(frame_bytes(data), max) == Some((data, Seq::<u8>::empty())),
{
    assert(after.frames().drop_last() =~= before.frames());
    lemma_frame_read_back(data, Seq::empty(), max);
    assert(frame_bytes(data) + Seq::<u8>::empty() =~= frame_bytes(data));
}

/// A greeting stays the first frame of every peer that was greeted with
/// it: among peers whose records start with `g`, each survivor of a
/// broadcast of `data` has a record that still starts with `g` and now ends
/// with `data`.
pub proof fn lemma_greeting_stays_first<C>(
    peers: Seq<Peer<C>>,
    delivered: Seq<bool>,
    g: Seq<u8>,
    data: Seq<u8>,
)
    requires
        forall|j: int|
            0 <= j < peers.len() ==> (#[trigger] peers[j]).frames().len() > 0 && peers[j].frames()[0]
                == g,
    ensures
        forall|i: int|
            0 <= i < kept(peers, delivered, true).len() ==> {
                &&& (#[trigger] kept(peers, delivered, true)[i]).frames().push(data)[0] == g
                &&& kept(peers, delivered, true)[i].frames().push(data).last() == data
            },
    decreases peers.len(),
{
    if peers.len() > 0 && delivered.len() > 0 {
        let front = peers.drop_last();
        assert forall|j: int| 0 <= j < front.len() implies (#[trigger] front[j]).frames().len() > 0
            && front[j].frames()[0] == g by {
            assert(front[j] == peers[j]);
        }
        lemma_greeting_stays_first(front, delivered.drop_last(), g, data);
        let k = kept(peers, delivered, true);
        let kf = kept(front, delivered.drop_last(), true);
        assert forall|i: int| 0 <= i < k.len() implies {
            &&& (#[trigger] k[i]).frames().push(data)[0] == g
            &&& k[i].frames().push(data).last() == data
        } by {
            if i < kf.len() {
                assert(k[i] == kf[i]);
            } else {
                assert(k[i] == peers[peers.len() - 1]);
            }
        }
    }
}

/// The bytes sent for a non-empty record are the first frame followed by
/// the bytes sent for the rest.
proof fn lemma_sent_bytes_front(frames: Seq<Seq<u8>>)
    requires
        frames.len() > 0,
    ensures
        sent_bytes(frames) == frame_bytes(frames[0]) + sent_bytes(frames.drop_first()),
    decreases frames.len(),
{
    if frames.len() > 1 {
        let front = frames.drop_last();
        lemma_sent_bytes_front(front);
        assert(front.drop_first() =~= frames.drop_first().drop_last());
        assert(frames.drop_first().last() == frames.last());
        assert(front[0] == frames[0]);
        assert(sent_bytes(frames) =~= frame_bytes(frames[0]) + sent_bytes(frames.drop_first()));
    } else {
        assert(frames.drop_last() =~= Seq::<Seq<u8>>::empty());
        assert(frames.drop_first() =~= Seq::<Seq<u8>>::empty());
        assert(sent_bytes(frames) =~= frame_bytes(frames[0]) + sent_bytes(frames.drop_first()));
    }
}

/// A reader of a peer's stream takes the frames of its record back one by
/// one, in the order they were sent: the first read gives the first
/// payload (for a greeted peer, the greeting) and leaves exactly the bytes
/// of the later frames.
pub proof fn lemma_record_read_in_order(frames: Seq<Seq<u8>>, max: nat)
    requires
        frames.len() > 0,
        forall|i: int| 0 <= i < frames.len() ==> (#[trigger] frames[i]).len() <= max,
        forall|i: int| 0 <= i < frames.len() ==> (#[trigger] frames[i]).len() <= u32::MAX,
    ensures
        next_frame(sent_bytes(frames), max) == Some((frames[0], sent_bytes(frames.drop_first()))),
{
    lemma_sent_bytes_front(frames);
    lemma_frame_read_back(frames[0], sent_bytes(frames.drop_first()), max);
}

/// A peer greeted with `g` that then survives broadcasts of `payloads`, one
/// after another (`states` are its values in between), has exactly the
/// greeting followed by the payloads on record; so a reader of its stream
/// takes the greeting first, once, and leaves exactly the broadcast frames.
pub proof fn lemma_greeting_then_broadcasts<C>(
    states: Seq<Peer<C>>,
    g: Seq<u8>,
    payloads: Seq<Seq<u8>>,
    max: nat,
)
    requires
        states.len() == payloads.len() + 1,
        states[0].frames() == seq![g],
        forall|i: int|
            0 <= i < payloads.len() ==> wrote(states[i], #[trigger] states[i + 1], payloads[i], true),
        g.len() <= max,
        g.len() <= u32::MAX,
        forall|i: int| 0 <= i < payloads.len() ==> (#[trigger] payloads[i]).len() <= max,
        forall|i: int| 0 <= i < payloads.len() ==> (#[trigger] payloads[i]).len() <= u32::MAX,
    ensures
        states.last().frames() == seq![g] + payloads,
        next_frame(sent_bytes(states.last().frames()), max) == Some((g, sent_bytes(payloads))),
    decreases payloads.len(),
{
    if payloads.len() == 0 {
        assert(seq![g] + payloads =~= seq![g]);
    } else {
        let n = payloads.len() - 1;
        let front = payloads.take(n as int);
        let st = states.take(n + 1);
        assert forall|i: int| 0 <= i < front.len() implies wrote(
            st[i],
            #[trigger] st[i + 1],
            front[i],
            true,
        ) by {
            assert(st[i] == states[i] && st[i + 1] == states[i + 1] && front[i] == payloads[i]);
        }
        assert forall|i: int| 0 <= i < front.len() implies (#[trigger] front[i]).len() <= max
            && front[i].len() <= u32::MAX by {
            assert(front[i] == payloads[i]);
        }
        lemma_greeting_then_broadcasts(st, g, front, max);
        assert(st.last() == states[n as int]);
        assert(wrote(states[n as int], states[n + 1], payloads[n as int], true));
        assert(states.last() == states[n + 1]);
        assert(seq![g] + payloads =~= (seq![g] + front).push(payloads[n as int]));
    }
    let frames = states.last().frames();
    assert(frames.drop_first() =~= payloads);
    assert forall|i: int| 0 <= i < frames.len() implies (#[trigger] frames[i]).len() <= max
        && frames[i].len() <= u32::MAX by {
        if i > 0 {
            assert(frames[i] == payloads[i - 1]);
        }
    }
    lemma_record_read_in_order(frames, max);
}

} // verus!
