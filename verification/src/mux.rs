use vstd::prelude::*;
use crate::bytes::{copy_bytes, sub_bytes};

verus! {

broadcast use crate::bytes::lemma_bytes_deep_view;

/// A first-byte classification range, closed on both ends.  The mux tells
/// its sub-streams apart purely by the first byte of each packet: DTLS
/// records use `[20, 63]`, RTP/RTCP use `[128, 191]`.
#[derive(Debug, Clone, Copy, PartialEq, Eq, Structural)]
pub struct MatchRange {
    pub lower: u8,
    pub upper: u8,
}

/// Whether a packet's first byte falls in `r`.  The empty packet matches
/// nothing.
pub open spec fn spec_matches(r: MatchRange, packet: Seq<u8>) -> bool {
    packet.len() > 0 && r.lower <= packet[0] && packet[0] <= r.upper
}

/// Whether a packet's first byte falls in `r`.
pub fn match_range(r: &MatchRange, packet: &Vec<u8>) -> (b: bool)
    ensures
        b == spec_matches(*r, packet@),
{
    packet.len() > 0 && r.lower <= packet[0] && packet[0] <= r.upper
}

/// Whether a packet in the RTP/RTCP first-byte range is an RTCP compound
/// packet: its second byte (the RTCP packet type) lies in `[192, 223]`.
pub open spec fn spec_is_rtcp(packet: Seq<u8>) -> bool {
    packet.len() >= 4 && 192 <= packet[1] && packet[1] <= 223
}

/// Whether a packet is SRTP (as opposed to SRTCP): first byte in
/// `[128, 191]` and not an RTCP packet type.
pub open spec fn spec_match_srtp(packet: Seq<u8>) -> bool {
    spec_matches(MatchRange { lower: 128, upper: 191 }, packet) && !spec_is_rtcp(packet)
}

/// Classifies a packet from the media sub-stream as RTP (`true`) or RTCP
/// (`false` for anything else), by the same first-byte test the mux uses
/// plus the RTCP packet-type range on the second byte.
pub fn match_srtp(packet: &Vec<u8>) -> (b: bool)
    ensures
        b == spec_match_srtp(packet@),
{
    let range = MatchRange { lower: 128, upper: 191 };
    if !match_range(&range, packet) {
        return false;
    }
    !(packet.len() >= 4 && 192 <= packet[1] && packet[1] <= 223)
}

/// One logical sub-stream of the mux: its classification range, its queue of
/// delivered packets (oldest first), and whether it is still registered.
pub struct Endpoint {
    pub matcher: MatchRange,
    pub buffer: Vec<Vec<u8>>,
    pub is_open: bool,
}

/// Ghost image of an `Endpoint`.
#[verifier::ext_equal]
pub struct EndpointV {
    pub matcher: MatchRange,
    pub buffer: Seq<Seq<u8>>,
    pub is_open: bool,
}

impl View for Endpoint {
    type V = EndpointV;

    open spec fn view(&self) -> EndpointV {
        EndpointV { matcher: self.matcher, buffer: self.buffer.deep_view(), is_open: self.is_open }
    }
}

impl DeepView for Endpoint {
    type V = EndpointV;

    open spec fn deep_view(&self) -> EndpointV {
        self.view()
    }
}

/// What one `recv` on an endpoint observes: the oldest queued packet, an
/// empty queue (the caller suspends and retries), or end-of-stream after the
/// endpoint was closed.
#[derive(Debug)]
pub enum RecvOutcome {
    Packet(Vec<u8>),
    Empty,
    Closed,
}

/// The demultiplexer: one underlying connection split into logical
/// endpoints.  Every inbound packet is delivered to at most one endpoint —
/// the first one, in registration order, whose range matches — and packets
/// that match no endpoint are dropped.
pub struct Mux {
    pub endpoints: Vec<Endpoint>,
}

impl View for Mux {
    type V = Seq<EndpointV>;

    open spec fn view(&self) -> Seq<EndpointV> {
        self.endpoints.deep_view()
    }
}

/// Index of the first open endpoint whose range matches the packet, if any.
pub open spec fn first_match(eps: Seq<EndpointV>, packet: Seq<u8>) -> Option<int>
    decreases eps.len(),
{
    if eps.len() == 0 {
        None
    } else if eps[0].is_open && spec_matches(eps[0].matcher, packet) {
        Some(0int)
    } else {
        match first_match(eps.drop_first(), packet) {
            Some(i) => Some(i + 1),
            None => None,
        }
    }
}

/// `first_match` names the least open matching index, or `None` when no open
/// endpoint matches.
pub proof fn lemma_first_match(eps: Seq<EndpointV>, packet: Seq<u8>)
    ensures
        match first_match(eps, packet) {
            Some(i) => 0 <= i < eps.len() && eps[i].is_open && spec_matches(eps[i].matcher, packet)
                && (forall|j: int|
                0 <= j < i ==> !(eps[j].is_open && spec_matches(eps[j].matcher, packet))),
            None => forall|j: int|
                0 <= j < eps.len() ==> !(eps[j].is_open && spec_matches(eps[j].matcher, packet)),
        },
    decreases eps.len(),
{
    if eps.len() > 0 && !(eps[0].is_open && spec_matches(eps[0].matcher, packet)) {
        lemma_first_match(eps.drop_first(), packet);
        assert(forall|j: int| 0 < j < eps.len() ==> eps[j] == eps.drop_first()[j - 1]);
    }
}

/// `first_match` reads only each endpoint's range and registration state,
/// never its queue.
pub proof fn lemma_first_match_congruence(a: Seq<EndpointV>, b: Seq<EndpointV>, packet: Seq<u8>)
    requires
        a.len() == b.len(),
        forall|i: int|
            0 <= i < a.len() ==> a[i].matcher == b[i].matcher && a[i].is_open == b[i].is_open,
    ensures
        first_match(a, packet) == first_match(b, packet),
    decreases a.len(),
{
    if a.len() > 0 {
        lemma_first_match_congruence(a.drop_first(), b.drop_first(), packet);
        assert(forall|j: int| 0 < j < a.len() ==> a[j] == a.drop_first()[j - 1]);
        assert(forall|j: int| 0 < j < b.len() ==> b[j] == b.drop_first()[j - 1]);
    }
}

/// The one delivery of a single inbound packet: appended to the queue of the
/// first open matching endpoint, or dropped.
pub open spec fn spec_dispatch(eps: Seq<EndpointV>, packet: Seq<u8>) -> Seq<EndpointV> {
    match first_match(eps, packet) {
        Some(i) => eps.update(
            i,
            EndpointV {
                matcher: eps[i].matcher,
                buffer: eps[i].buffer.push(packet),
                is_open: eps[i].is_open,
            },
        ),
        None => eps,
    }
}

/// The deliveries of a whole inbound packet sequence, in receipt order.
pub open spec fn spec_dispatch_all(eps: Seq<EndpointV>, packets: Seq<Seq<u8>>) -> Seq<EndpointV> {
    packets.fold_left(eps, |acc: Seq<EndpointV>, p: Seq<u8>| spec_dispatch(acc, p))
}

/// Mux demultiplexing determinism: over any inbound packet sequence, each
/// endpoint's queue grows by exactly the packets whose first open match it
/// is, in receipt order; a packet that matches no open endpoint is delivered
/// nowhere; ranges and registration states never change.
pub proof fn lemma_mux_determinism(eps: Seq<EndpointV>, packets: Seq<Seq<u8>>)
    ensures
        spec_dispatch_all(eps, packets).len() == eps.len(),
        forall|i: int|
            0 <= i < eps.len() ==> #[trigger] spec_dispatch_all(eps, packets)[i] == (EndpointV {
                matcher: eps[i].matcher,
                buffer: eps[i].buffer + packets.filter(
                    |p: Seq<u8>| first_match(eps, p) == Some(i),
                ),
                is_open: eps[i].is_open,
            }),
    decreases packets.len(),
{
    reveal(Seq::filter);
    if packets.len() == 0 {
        assert forall|i: int| 0 <= i < eps.len() implies #[trigger] spec_dispatch_all(eps, packets)[i]
            == (EndpointV {
            matcher: eps[i].matcher,
            buffer: eps[i].buffer + packets.filter(|p: Seq<u8>| first_match(eps, p) == Some(i)),
            is_open: eps[i].is_open,
        }) by {
            assert(packets.filter(|p: Seq<u8>| first_match(eps, p) == Some(i)) =~= Seq::empty());
            assert(eps[i].buffer + Seq::empty() =~= eps[i].buffer);
        }
    } else {
        let prefix = packets.drop_last();
        let last = packets.last();
        lemma_mux_determinism(eps, prefix);
        let mid = spec_dispatch_all(eps, prefix);
        assert(spec_dispatch_all(eps, packets) == spec_dispatch(mid, last));
        lemma_first_match_congruence(mid, eps, last);
        lemma_first_match(eps, last);
        assert forall|i: int| 0 <= i < eps.len() implies #[trigger] spec_dispatch_all(eps, packets)[i]
            == (EndpointV {
            matcher: eps[i].matcher,
            buffer: eps[i].buffer + packets.filter(|p: Seq<u8>| first_match(eps, p) == Some(i)),
            is_open: eps[i].is_open,
        }) by {
            let pred = |p: Seq<u8>| first_match(eps, p) == Some(i);
            assert(packets.filter(pred) == if pred(last) {
                prefix.filter(pred).push(last)
            } else {
                prefix.filter(pred)
            });
            if first_match(eps, last) == Some(i) {
                assert(eps[i].buffer + prefix.filter(pred).push(last) =~= (eps[i].buffer
                    + prefix.filter(pred)).push(last));
            }
        }
    }
}

impl Mux {
    /// A mux with no endpoints yet.
    pub fn new() -> (m: Mux)
        ensures
            m@ =~= Seq::<EndpointV>::empty(),
    {
        Mux { endpoints: Vec::new() }
    }

    /// Registers a new logical sub-stream fed by `matcher`; its id is its
    /// registration rank.  Non-blocking; the new endpoint starts empty.
    pub fn new_endpoint(&mut self, matcher: MatchRange) -> (id: usize)
        ensures
            id == old(self)@.len(),
            final(self)@ == old(self)@.push(
                EndpointV { matcher, buffer: Seq::empty(), is_open: true },
            ),
    {
        let id = self.endpoints.len();
        self.endpoints.push(Endpoint { matcher, buffer: Vec::new(), is_open: true });
        assert(self@ =~~= old(self)@.push(
            EndpointV { matcher, buffer: Seq::empty(), is_open: true },
        ));
        id
    }

    /// Delivers one inbound packet to the first open endpoint, in
    /// registration order, whose range matches its first byte; a packet no
    /// open endpoint matches is dropped and delivered nowhere.
    pub fn dispatch(&mut self, packet: Vec<u8>) -> (delivered: Option<usize>)
        ensures
            final(self)@ == spec_dispatch(old(self)@, packet@),
            match delivered {
                Some(i) => first_match(old(self)@, packet@) == Some(i as int),
                None => first_match(old(self)@, packet@) is None && final(self)@ == old(self)@,
            },
    {
        proof {
            lemma_first_match(old(self)@, packet@);
        }
        let ghost eps0 = old(self)@;
        let ghost pkt = packet@;
        let mut i: usize = 0;
        while i < self.endpoints.len()
            invariant
                self.endpoints == old(self).endpoints,
                self@ == eps0,
                pkt == packet@,
                i <= eps0.len(),
                forall|j: int|
                    0 <= j < i ==> !(eps0[j].is_open && spec_matches(eps0[j].matcher, pkt)),
            decreases self.endpoints.len() - i,
        {
            let hit = self.endpoints[i].is_open && match_range(&self.endpoints[i].matcher, &packet);
            if hit {
                proof {
                    assert(self@[i as int] == self.endpoints@[i as int]@);
                    assert(eps0[i as int].is_open && spec_matches(eps0[i as int].matcher, pkt));
                    lemma_first_match(eps0, pkt);
                    assert(first_match(eps0, pkt) == Some(i as int));
                }
                let mut ep = self.endpoints.remove(i);
                let ghost epv = ep@;
                proof {
                    assert(epv == eps0[i as int]);
                }
                ep.buffer.push(packet);
                proof {
                    assert(ep@.buffer =~~= epv.buffer.push(pkt));
                }
                let ghost newep = ep@;
                self.endpoints.insert(i, ep);
                proof {
                    assert(newep =~~= EndpointV {
                        matcher: eps0[i as int].matcher,
                        buffer: eps0[i as int].buffer.push(pkt),
                        is_open: eps0[i as int].is_open,
                    });
                    assert forall|j: int| 0 <= j < self@.len() && j != i implies self@[j]
                        == eps0[j] by {
                        assert(self.endpoints@[j] == old(self).endpoints@.remove(i as int).insert(
                            i as int,
                            self.endpoints@[i as int],
                        )[j]);
                        assert(self.endpoints@[j] == old(self).endpoints@[j]);
                    }
                    assert(self@[i as int] == newep);
                    assert(self@ =~~= eps0.update(i as int, newep));
                    assert(self@ =~~= spec_dispatch(eps0, pkt));
                }
                return Some(i);
            }
            i = i + 1;
        }
        None
    }

    /// Takes the oldest queued packet of endpoint `id`, reports an empty
    /// queue, or reports end-of-stream when the endpoint was closed.
    pub fn recv(&mut self, id: usize) -> (r: RecvOutcome)
        requires
            id < old(self)@.len(),
        ensures
            match r {
                RecvOutcome::Packet(p) => {
                    &&& old(self)@[id as int].is_open
                    &&& old(self)@[id as int].buffer.len() > 0
                    &&& p@ == old(self)@[id as int].buffer[0]
                    &&& final(self)@ == old(self)@.update(
                        id as int,
                        EndpointV {
                            matcher: old(self)@[id as int].matcher,
                            buffer: old(self)@[id as int].buffer.drop_first(),
                            is_open: true,
                        },
                    )
                },
                RecvOutcome::Empty => {
                    &&& old(self)@[id as int].is_open
                    &&& old(self)@[id as int].buffer.len() == 0
                    &&& final(self)@ == old(self)@
                },
                RecvOutcome::Closed => {
                    &&& !old(self)@[id as int].is_open
                    &&& final(self)@ == old(self)@
                },
            },
    {
        if !self.endpoints[id].is_open {
            return RecvOutcome::Closed;
        }
        if self.endpoints[id].buffer.len() == 0 {
            return RecvOutcome::Empty;
        }
        let mut ep = self.endpoints.remove(id);
        let packet = ep.buffer.remove(0);
        self.endpoints.insert(id, ep);
        assert(self@ =~~= old(self)@.update(
            id as int,
            EndpointV {
                matcher: old(self)@[id as int].matcher,
                buffer: old(self)@[id as int].buffer.drop_first(),
                is_open: true,
            },
        ));
        RecvOutcome::Packet(packet)
    }

    /// Idempotently unregisters endpoint `id`: it stops matching inbound
    /// packets, its queue is discarded, and pending reads observe
    /// end-of-stream.
    pub fn close(&mut self, id: usize)
        requires
            id < old(self)@.len(),
        ensures
            final(self)@ == old(self)@.update(
                id as int,
                EndpointV {
                    matcher: old(self)@[id as int].matcher,
                    buffer: Seq::empty(),
                    is_open: false,
                },
            ),
    {
        let mut ep = self.endpoints.remove(id);
        ep.buffer = Vec::new();
        ep.is_open = false;
        self.endpoints.insert(id, ep);
        assert(self@ =~~= old(self)@.update(
            id as int,
            EndpointV {
                matcher: old(self)@[id as int].matcher,
                buffer: Seq::empty(),
                is_open: false,
            },
        ));
    }
}

/// The byte-stream adapter's read step: one datagram hands over its leading
/// bytes, at most `limit` of them; a datagram is never coalesced with the
/// next one.
pub fn take_read(packet: &Vec<u8>, limit: usize) -> (r: Vec<u8>)
    ensures
        r@ == if packet@.len() <= limit {
            packet@
        } else {
            packet@.take(limit as int)
        },
{
    if packet.len() <= limit {
        copy_bytes(packet)
    } else {
        let r = sub_bytes(packet, 0, limit);
        assert(packet@.subrange(0, limit as int) =~= packet@.take(limit as int));
        r
    }
}

} // verus!
