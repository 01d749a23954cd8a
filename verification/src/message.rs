use vstd::prelude::*;
use std::collections::VecDeque;
use crate::errors::CryptographicError;
use crate::state::NodeState;
use crate::types::Participant;

verus! {

/// A step of the distributed key generation protocol, relayed by a peer.
#[derive(Clone, Debug, PartialEq, Eq)]
pub struct GeneratingMessage {
    pub from: Participant,
    pub data: Vec<u8>,
}

/// A step of the resharing protocol, tagged with the epoch being left.
#[derive(Clone, Debug, PartialEq, Eq)]
pub struct ResharingMessage {
    pub epoch: u64,
    pub from: Participant,
    pub data: Vec<u8>,
}

/// A step of one triple-generation subprotocol.
#[derive(Clone, Debug, PartialEq, Eq)]
pub struct TripleMessage {
    pub id: u64,
    pub epoch: u64,
    pub from: Participant,
    pub data: Vec<u8>,
}

/// A step of one presignature subprotocol.
#[derive(Clone, Debug, PartialEq, Eq)]
pub struct PresignatureMessage {
    pub id: u64,
    pub epoch: u64,
    pub from: Participant,
    pub data: Vec<u8>,
}

/// A step of one signature subprotocol.
#[derive(Clone, Debug, PartialEq, Eq)]
pub struct SignatureMessage {
    pub id: u64,
    pub epoch: u64,
    pub from: Participant,
    pub data: Vec<u8>,
}

/// Everything one node sends another.
#[derive(Clone, Debug, PartialEq, Eq)]
pub enum MpcMessage {
    Generating(GeneratingMessage),
    Resharing(ResharingMessage),
    Triple(TripleMessage),
    Presignature(PresignatureMessage),
    Signature(SignatureMessage),
}


/// Buffers inbound messages that arrive before the matching subprotocol
/// exists, one queue per kind; `handle` drains whatever the current state can
/// accept and retains the rest.
pub struct MpcMessageQueue {
    pub generating: VecDeque<GeneratingMessage>,
    pub resharing: VecDeque<ResharingMessage>,
    pub triple: VecDeque<TripleMessage>,
    pub presignature: VecDeque<PresignatureMessage>,
    pub signature: VecDeque<SignatureMessage>,
}

impl MpcMessageQueue {
    pub fn new() -> (r: MpcMessageQueue)
        ensures
            r.generating@.len() == 0,
            r.resharing@.len() == 0,
            r.triple@.len() == 0,
            r.presignature@.len() == 0,
            r.signature@.len() == 0,
    {
        MpcMessageQueue {
            generating: VecDeque::new(),
            resharing: VecDeque::new(),
            triple: VecDeque::new(),
            presignature: VecDeque::new(),
            signature: VecDeque::new(),
        }
    }

    /// File an inbound message under its kind.
    pub fn push(&mut self, msg: MpcMessage)
        ensures
            msg matches MpcMessage::Generating(m) ==> final(self).generating@ == old(self).generating@.push(m) && final(self).resharing == old(self).resharing && final(self).triple == old(self).triple && final(self).presignature == old(self).presignature && final(self).signature == old(self).signature,
            msg matches MpcMessage::Resharing(m) ==> final(self).resharing@ == old(self).resharing@.push(m) && final(self).generating == old(self).generating && final(self).triple == old(self).triple && final(self).presignature == old(self).presignature && final(self).signature == old(self).signature,
            msg matches MpcMessage::Triple(m) ==> final(self).triple@ == old(self).triple@.push(m) && final(self).generating == old(self).generating && final(self).resharing == old(self).resharing && final(self).presignature == old(self).presignature && final(self).signature == old(self).signature,
            msg matches MpcMessage::Presignature(m) ==> final(self).presignature@ == old(self).presignature@.push(m) && final(self).generating == old(self).generating && final(self).resharing == old(self).resharing && final(self).triple == old(self).triple && final(self).signature == old(self).signature,
            msg matches MpcMessage::Signature(m) ==> final(self).signature@ == old(self).signature@.push(m) && final(self).generating == old(self).generating && final(self).resharing == old(self).resharing && final(self).triple == old(self).triple && final(self).presignature == old(self).presignature,
    {
        match msg {
            MpcMessage::Generating(m) => self.generating.push_back(m),
            MpcMessage::Resharing(m) => self.resharing.push_back(m),
            MpcMessage::Triple(m) => self.triple.push_back(m),
            MpcMessage::Presignature(m) => self.presignature.push_back(m),
            MpcMessage::Signature(m) => self.signature.push_back(m),
        }
    }
}


/// The generating messages of an inbound batch, in order.
pub open spec fn spec_inbound_generating(msgs: Seq<MpcMessage>) -> Seq<GeneratingMessage>
    decreases msgs.len(),
{
    if msgs.len() == 0 {
        Seq::empty()
    } else {
        (match msgs[0] {
            MpcMessage::Generating(m) => seq![m],
            _ => Seq::empty(),
        }) + spec_inbound_generating(msgs.skip(1))
    }
}

/// The resharing messages of an inbound batch, in order.
pub open spec fn spec_inbound_resharing(msgs: Seq<MpcMessage>) -> Seq<ResharingMessage>
    decreases msgs.len(),
{
    if msgs.len() == 0 {
        Seq::empty()
    } else {
        (match msgs[0] {
            MpcMessage::Resharing(m) => seq![m],
            _ => Seq::empty(),
        }) + spec_inbound_resharing(msgs.skip(1))
    }
}

/// The triple messages of an inbound batch, in order.
pub open spec fn spec_inbound_triple(msgs: Seq<MpcMessage>) -> Seq<TripleMessage>
    decreases msgs.len(),
{
    if msgs.len() == 0 {
        Seq::empty()
    } else {
        (match msgs[0] {
            MpcMessage::Triple(m) => seq![m],
            _ => Seq::empty(),
        }) + spec_inbound_triple(msgs.skip(1))
    }
}

/// The presignature messages of an inbound batch, in order.
pub open spec fn spec_inbound_presignature(msgs: Seq<MpcMessage>) -> Seq<PresignatureMessage>
    decreases msgs.len(),
{
    if msgs.len() == 0 {
        Seq::empty()
    } else {
        (match msgs[0] {
            MpcMessage::Presignature(m) => seq![m],
            _ => Seq::empty(),
        }) + spec_inbound_presignature(msgs.skip(1))
    }
}

/// The signature messages of an inbound batch, in order.
pub open spec fn spec_inbound_signature(msgs: Seq<MpcMessage>) -> Seq<SignatureMessage>
    decreases msgs.len(),
{
    if msgs.len() == 0 {
        Seq::empty()
    } else {
        (match msgs[0] {
            MpcMessage::Signature(m) => seq![m],
            _ => Seq::empty(),
        }) + spec_inbound_signature(msgs.skip(1))
    }
}

/// Drain the buffered messages the current state can accept, dispatching each
/// to its subprotocol; the rest stay buffered.
///
/// A generating message is handed to the key-generation protocol; a resharing
/// message to the resharing protocol when its epoch is the one being left,
/// and is dropped otherwise.  A triple message is dropped unless its epoch is
/// the running epoch; one with the right epoch reaches its generation
/// protocol, joining it if need be — unless that triple is already complete,
/// in which case the message is dropped.  The queue the current state accepts
/// is drained — empty afterwards, barring an error partway — and every other
/// queue is retained untouched.  Completed triples, owned ids, the phase and
/// the epoch never change here; a new generation protocol only appears for a
/// triple message that was buffered with the running epoch, and every such
/// message whose triple is not already complete leaves its generation
/// protocol in flight.
pub fn handle(state: NodeState, queue: &mut MpcMessageQueue) -> (r: Result<
    NodeState,
    (NodeState, CryptographicError),
>)
    ensures
        match r {
            Ok(ns) => ns.spec_epoch() == state.spec_epoch() && handled_state_ok(state, ns, old(queue).triple@),
            Err((ns, e)) => ns.spec_epoch() == state.spec_epoch() && handled_state_ok(state, ns, old(queue).triple@),
        },
        !(state is Generating) && !(state is Resharing) && !(state is Running) ==> (r matches Ok(ns) && ns == state && *final(queue) == *old(queue)),
        state is Generating ==> (final(queue).generating@.len() == 0 && final(queue).resharing == old(queue).resharing && final(queue).triple == old(queue).triple && final(queue).presignature == old(queue).presignature && final(queue).signature == old(queue).signature && r is Ok),
        state is Resharing ==> (final(queue).resharing@.len() == 0 && final(queue).generating == old(queue).generating && final(queue).triple == old(queue).triple && final(queue).presignature == old(queue).presignature && final(queue).signature == old(queue).signature && r is Ok),
        state is Running ==> (final(queue).generating == old(queue).generating && final(queue).resharing == old(queue).resharing && final(queue).presignature == old(queue).presignature && final(queue).signature == old(queue).signature),
        state is Running && r is Ok ==> final(queue).triple@.len() == 0,
        (state is Running && r is Ok) ==> ((r->Ok_0) matches NodeState::Running(r2) && forall|k: int|
            0 <= k < old(queue).triple@.len() ==> {
                let m = #[trigger] old(queue).triple@[k];
                (m.epoch == state->Running_0.epoch && !state->Running_0.triple_manager.triples@.contains_key(m.id)) ==> r2.triple_manager.gen_ids().contains(m.id)
            }),
{
    match state {
        NodeState::Generating(g) => {
            let mut g = g;
            while queue.generating.len() > 0
                invariant
                    g.participants == state->Generating_0.participants,
                    g.threshold == state->Generating_0.threshold,
                    queue.resharing == old(queue).resharing,
                    queue.triple == old(queue).triple,
                    queue.presignature == old(queue).presignature,
                    queue.signature == old(queue).signature,
                decreases queue.generating@.len(),
            {
                match queue.generating.pop_front() {
                    Some(m) => g.protocol.message(m.from, m.data),
                    None => {},
                }
            }
            Ok(NodeState::Generating(g))
        },
        NodeState::Resharing(rs) => {
            let mut rs = rs;
            while queue.resharing.len() > 0
                invariant
                    queue.generating == old(queue).generating,
                    queue.triple == old(queue).triple,
                    queue.presignature == old(queue).presignature,
                    queue.signature == old(queue).signature,
                    rs.old_epoch == state->Resharing_0.old_epoch,
                    rs.old_participants == state->Resharing_0.old_participants,
                    rs.new_participants == state->Resharing_0.new_participants,
                    rs.threshold == state->Resharing_0.threshold,
                    rs.public_key == state->Resharing_0.public_key,
                decreases queue.resharing@.len(),
            {
                match queue.resharing.pop_front() {
                    Some(m) => {
                        if m.epoch == rs.old_epoch {
                            rs.protocol.message(m.from, m.data);
                        }
                        // A resharing message for another epoch is stale and
                        // is dropped.
                    },
                    None => {},
                }
            }
            Ok(NodeState::Resharing(rs))
        },
        NodeState::Running(run) => {
            let mut run = run;
            let ghost q0 = queue.triple@;
            let ghost qlen = queue.triple@.len() as int;
            while queue.triple.len() > 0
                invariant
                    state is Running,
                    queue.generating == old(queue).generating,
                    queue.resharing == old(queue).resharing,
                    queue.presignature == old(queue).presignature,
                    queue.signature == old(queue).signature,
                    q0 == old(queue).triple@,
                    run.epoch == state->Running_0.epoch,
                    run.participants == state->Running_0.participants,
                    run.threshold == state->Running_0.threshold,
                    run.private_share == state->Running_0.private_share,
                    run.public_key == state->Running_0.public_key,
                    run.triple_manager.triples == state->Running_0.triple_manager.triples,
                    run.triple_manager.mine == state->Running_0.triple_manager.mine,
                    run.triple_manager.same_config(state->Running_0.triple_manager),
                    qlen == q0.len(),
                    queue.triple@.len() <= qlen,
                    queue.triple@ == q0.skip(qlen - queue.triple@.len()),
                    forall|id: u64| #[trigger]
                        run.triple_manager.gen_ids().contains(id)
                            ==> state->Running_0.triple_manager.gen_ids().contains(id)
                            || exists|k: int| 0 <= k < qlen && (#[trigger] q0[k]).id == id && q0[k].epoch == run.epoch,
                    forall|k: int|
                        0 <= k < qlen - queue.triple@.len() ==> {
                            let m = #[trigger] q0[k];
                            (m.epoch == run.epoch && !run.triple_manager.triples@.contains_key(
                                m.id,
                            )) ==> run.triple_manager.gen_ids().contains(m.id)
                        },
                decreases queue.triple@.len(),
            {
                let ghost before = queue.triple@;
                match queue.triple.pop_front() {
                    Some(m) => {
                        proof {
                            let d = qlen - before.len() as int;
                            assert(before == q0.skip(d));
                            assert(q0.skip(d)[0] == q0[d]);
                            assert(m == q0[d]);
                            assert(queue.triple@ == before.subrange(1, before.len() as int));
                            assert(queue.triple@ =~= q0.skip(d + 1));
                        }
                        if m.epoch == run.epoch {
                            let ghost gens_before = run.triple_manager.gen_ids();
                            let ghost mgr_before = run.triple_manager;
                            match run.triple_manager.get_or_generate(m.id) {
                                Ok(Some(protocol)) => {
                                    protocol.message(m.from, m.data);
                                    proof {
                                        let d = qlen - before.len() as int;
                                        assert(0 <= d < qlen && q0[d].id == m.id && q0[d].epoch
                                            == run.epoch);
                                        assert forall|id: u64| #[trigger]
                                            run.triple_manager.gen_ids().contains(id)
                                                implies state->Running_0.triple_manager.gen_ids().contains(id)
                                                || exists|k: int| 0 <= k < qlen && (#[trigger] q0[k]).id == id && q0[k].epoch == run.epoch by {
                                            if id != m.id {
                                                let j = choose|j: int|
                                                    0 <= j < run.triple_manager.gen_ids().len()
                                                        && run.triple_manager.gen_ids()[j] == id;
                                                assert(run.triple_manager.generators@[j].0 == id);
                                                assert(gens_before.contains(id)) by {
                                                    assert(gens_before[j] == id || gens_before.contains(id));
                                                }
                                            }
                                        }
                                        // Every in-flight id stays in flight.
                                        assert forall|q: u64| gens_before.contains(q)
                                            implies run.triple_manager.gen_ids().contains(q) by {
                                            let j = choose|j: int|
                                                0 <= j < gens_before.len() && gens_before[j] == q;
                                            assert(mgr_before.generators@[j].0 == q);
                                            assert(run.triple_manager.generators@[j].0 == q);
                                            assert(run.triple_manager.gen_ids()[j] == q);
                                        }
                                        // And this message's id is in flight now.
                                        assert(run.triple_manager.gen_ids().contains(m.id)) by {
                                            if !gens_before.contains(m.id) {
                                                if exists|i: int|
                                                    0 <= i < mgr_before.generators@.len() && (
                                                    #[trigger] mgr_before.generators@[i]).0
                                                        == m.id {
                                                    let i = choose|i: int|
                                                        0 <= i < mgr_before.generators@.len() && (
                                                        #[trigger] mgr_before.generators@[i]).0
                                                            == m.id;
                                                    assert(gens_before[i] == m.id);
                                                    assert(false);
                                                }
                                                let last = mgr_before.generators@.len() as int;
                                                assert(run.triple_manager.generators@[last].0
                                                    == m.id);
                                                assert(run.triple_manager.gen_ids()[last] == m.id);
                                            }
                                        }
                                    }
                                },
                                Ok(None) => {
                                    // The triple is already complete; the
                                    // late message is dropped.
                                },
                                Err(e) => {
                                    return Err((NodeState::Running(run), e));
                                },
                            }
                        }
                        // A triple message for another epoch is dropped.
                    },
                    None => {},
                }
            }
            Ok(NodeState::Running(run))
        },
        other => Ok(other),
    }
}

/// What `handle` preserves of the state, phase by phase: the fields that
/// identify the phase, the completed triples and owned ids, and — for a
/// running node — that any new generation protocol answers to a triple
/// message that was buffered with the running epoch.
pub open spec fn handled_state_ok(state: NodeState, ns: NodeState, buffered_triples: Seq<TripleMessage>) -> bool {
    match state {
        NodeState::Generating(g) => ns matches NodeState::Generating(g2) && g2.participants == g.participants && g2.threshold == g.threshold,
        NodeState::Resharing(s) => ns matches NodeState::Resharing(s2) && s2.old_epoch == s.old_epoch && s2.old_participants == s.old_participants && s2.new_participants == s.new_participants && s2.threshold == s.threshold && s2.public_key == s.public_key,
        NodeState::Running(run) => ns matches NodeState::Running(r2) && {
            &&& r2.epoch == run.epoch
            &&& r2.participants == run.participants
            &&& r2.threshold == run.threshold
            &&& r2.private_share == run.private_share
            &&& r2.public_key == run.public_key
            &&& r2.triple_manager.triples == run.triple_manager.triples
            &&& r2.triple_manager.mine == run.triple_manager.mine
            &&& r2.triple_manager.same_config(run.triple_manager)
            &&& forall|id: u64| #[trigger]
                r2.triple_manager.gen_ids().contains(id) ==> run.triple_manager.gen_ids().contains(id)
                    || exists|k: int| 0 <= k < buffered_triples.len() && (#[trigger] buffered_triples[k]).id == id && buffered_triples[k].epoch == run.epoch
        },
        _ => ns == state,
    }
}

} // verus!
