use vstd::prelude::*;
use k256::elliptic_curve::group::GroupEncoding;
use k256::elliptic_curve::PrimeField;
use crate::errors::{CryptographicError, InitializationError, ProtocolError};
use crate::message::{GeneratingMessage, MpcMessage, ResharingMessage, TripleMessage};
use crate::state::{GeneratingState, NodeState, ResharingState, RunningState, WaitingForConsensusState};
use crate::triple::{distinct_participants, TripleId, MAX_ACTIONS_PER_POKE};
use crate::types::{Participant, Participants};
use cait_sith::protocol::Action as CsAction;
use cait_sith::protocol::InitializationError as CsInitError;
use cait_sith::protocol::Participant as CsParticipant;
use cait_sith::protocol::ProtocolError as CsProtocolError;

verus! {

/// One message the driver wants delivered: to whom, whether it must go over
/// the encrypted channel, and the message itself.  Broadcast steps are
/// conceptually non-sensitive and go plain; a private step carries a
/// peer-specific share and is always encrypted.
pub struct Outbound {
    pub to: Participant,
    pub encrypted: bool,
    pub message: MpcMessage,
}

/// The roster's participants except this node, in roster order: the
/// recipients of a broadcast.
pub open spec fn spec_others(ids: Seq<Participant>, me: Participant) -> Seq<Participant>
    decreases ids.len(),
{
    if ids.len() == 0 {
        Seq::empty()
    } else {
        let rest = spec_others(ids.drop_last(), me);
        if ids.last() == me {
            rest
        } else {
            rest.push(ids.last())
        }
    }
}

/// A broadcast never addresses the sender, and only addresses roster members.
pub proof fn lemma_spec_others(ids: Seq<Participant>, me: Participant)
    ensures
        forall|k: int|
            0 <= k < spec_others(ids, me).len() ==> #[trigger] spec_others(ids, me)[k] != me
                && ids.contains(spec_others(ids, me)[k]),
    decreases ids.len(),
{
    if ids.len() > 0 {
        lemma_spec_others(ids.drop_last(), me);
        let rest = spec_others(ids.drop_last(), me);
        assert forall|k: int|
            0 <= k < spec_others(ids, me).len() implies #[trigger] spec_others(ids, me)[k] != me
            && ids.contains(spec_others(ids, me)[k]) by {
            if k < rest.len() {
                assert(spec_others(ids, me)[k] == rest[k]);
                let j = choose|j: int| 0 <= j < ids.drop_last().len() && ids.drop_last()[j] == rest[k];
                assert(ids[j] == rest[k]);
            } else {
                assert(spec_others(ids, me)[k] == ids.last());
                assert(ids[ids.len() - 1] == ids.last());
            }
        }
    }
}

/// A step the key-generation protocol asks of its driver; the returned key
/// material is carried as plain bytes.
pub enum KeygenAction {
    Wait,
    SendMany(Vec<u8>),
    SendPrivate(Participant, Vec<u8>),
    Return { private_share: Vec<u8>, public_key: Vec<u8> },
}

/// A step the resharing protocol asks of its driver.
pub enum ReshareAction {
    Wait,
    SendMany(Vec<u8>),
    SendPrivate(Participant, Vec<u8>),
    Return { private_share: Vec<u8> },
}

/// A handle to an in-flight cait-sith key-generation protocol; the concrete
/// type is an unnameable `impl Protocol`, so it is held behind an opaque box.
#[verifier::external_body]
pub struct KeygenProtocol {
    inner: Box<
        dyn cait_sith::protocol::Protocol<
            Output = cait_sith::KeygenOutput<k256::Secp256k1>,
        > + Send,
    >,
}

/// A handle to an in-flight cait-sith resharing protocol.
#[verifier::external_body]
pub struct ReshareProtocol {
    inner: Box<
        dyn cait_sith::protocol::Protocol<Output = k256::Scalar> + Send,
    >,
}

/// Carries a secp256k1 scalar between trusted conversions.
#[verifier::external_body]
struct ScalarHolder {
    inner: k256::Scalar,
}

impl ScalarHolder {
    /// Relies on k256's Scalar::from_repr: decodes 32 big-endian bytes,
    /// refusing values at or above the group order (and any other length).
    #[verifier::external_body]
    fn decode(bytes: &Vec<u8>) -> Result<ScalarHolder, InitializationError> {
        let bad = || InitializationError::BadParameters("invalid secret share encoding".to_string());
        let arr: [u8; 32] = bytes.as_slice().try_into().map_err(|_| bad())?;
        let ct = k256::Scalar::from_repr(arr.into());
        if bool::from(ct.is_some()) {
            Ok(ScalarHolder { inner: ct.unwrap() })
        } else {
            Err(bad())
        }
    }
}

/// Carries a secp256k1 point between trusted conversions.
#[verifier::external_body]
struct PointHolder {
    inner: k256::AffinePoint,
}

impl PointHolder {
    /// Relies on k256's GroupEncoding::from_bytes: decodes a 33-byte SEC1
    /// compressed point, refusing anything that is not on the curve.
    #[verifier::external_body]
    fn decode(bytes: &Vec<u8>) -> Result<PointHolder, InitializationError> {
        let bad = || InitializationError::BadParameters("invalid public key encoding".to_string());
        let arr: [u8; 33] = bytes.as_slice().try_into().map_err(|_| bad())?;
        let ct = k256::AffinePoint::from_bytes(&arr.into());
        if bool::from(ct.is_some()) {
            Ok(PointHolder { inner: ct.unwrap() })
        } else {
            Err(bad())
        }
    }
}

/// Relies on cait_sith::keygen over Secp256k1: it hands back a protocol when
/// there are at least two distinct participants, this node is among them, and
/// the threshold is at most their number; it returns a BadParameters error
/// exactly otherwise.
#[verifier::external_body]
pub fn start_keygen_protocol(
    participants: &Vec<Participant>,
    me: Participant,
    threshold: usize,
) -> (r: Result<KeygenProtocol, InitializationError>)
    ensures
        r is Ok <==> (participants@.len() >= 2 && threshold <= participants@.len()
            && distinct_participants(participants@) && participants@.contains(me)),
{
    let ps: Vec<CsParticipant> = participants.iter().map(|p| CsParticipant::from(p.id)).collect();
    let me = CsParticipant::from(me.id);
    match cait_sith::keygen::<k256::Secp256k1>(&ps, me, threshold) {
        Ok(protocol) => Ok(KeygenProtocol { inner: Box::new(protocol) }),
        Err(CsInitError::BadParameters(s)) => Err(InitializationError::BadParameters(s)),
    }
}

/// Relies on cait_sith::reshare over Secp256k1.  If the new roster has fewer
/// than two members, a duplicate, a threshold above its size, or does not
/// contain this node, the call fails; it can also fail for reasons of the old
/// roster (too small an overlap, a missing share) or because the share or key
/// bytes do not decode, so success is not promised here.
#[verifier::external_body]
pub fn start_reshare_protocol(
    old_participants: &Vec<Participant>,
    old_threshold: usize,
    new_participants: &Vec<Participant>,
    new_threshold: usize,
    me: Participant,
    my_share: Option<&Vec<u8>>,
    public_key: &Vec<u8>,
) -> (r: Result<ReshareProtocol, InitializationError>)
    ensures
        !(new_participants@.len() >= 2 && new_threshold <= new_participants@.len()
            && distinct_participants(new_participants@) && new_participants@.contains(me)) ==> r
            is Err,
{
    let olds: Vec<CsParticipant> = old_participants.iter().map(|p| CsParticipant::from(p.id)).collect();
    let news: Vec<CsParticipant> = new_participants.iter().map(|p| CsParticipant::from(p.id)).collect();
    let share = match my_share {
        None => None,
        Some(b) => Some(ScalarHolder::decode(b)?.inner),
    };
    let pk = PointHolder::decode(public_key)?.inner;
    let me = CsParticipant::from(me.id);
    match cait_sith::reshare::<k256::Secp256k1>(&olds, old_threshold, &news, new_threshold, me, share, pk) {
        Ok(protocol) => Ok(ReshareProtocol { inner: Box::new(protocol) }),
        Err(CsInitError::BadParameters(s)) => Err(InitializationError::BadParameters(s)),
    }
}

impl KeygenProtocol {
    /// Relies on cait-sith's Protocol::poke; which action comes back is up to
    /// the protocol.  A returned key pair is converted to plain bytes: the
    /// scalar share as 32 big-endian bytes, the public key SEC1-compressed as
    /// 33 bytes.
    #[verifier::external_body]
    pub fn poke(&mut self) -> (r: Result<KeygenAction, ProtocolError>)
        ensures
            match r {
                Ok(a) => match a {
                    KeygenAction::Return { private_share, public_key } => private_share@.len()
                        == 32 && public_key@.len() == 33,
                    _ => true,
                },
                Err(_) => true,
            },
    {
        match self.inner.poke() {
            Ok(CsAction::Wait) => Ok(KeygenAction::Wait),
            Ok(CsAction::SendMany(d)) => Ok(KeygenAction::SendMany(d)),
            Ok(CsAction::SendPrivate(p, d)) => Ok(KeygenAction::SendPrivate(Participant { id: u32::from(p) }, d)),
            Ok(CsAction::Return(o)) => Ok(KeygenAction::Return {
                private_share: o.private_share.to_bytes().to_vec(),
                public_key: o.public_key.to_bytes().to_vec(),
            }),
            Err(CsProtocolError::AssertionFailed(s)) => Err(ProtocolError::AssertionFailed(s)),
            Err(CsProtocolError::Other(e)) => Err(ProtocolError::Other(format!("{}", e))),
        }
    }

    /// Relies on cait-sith's Protocol::message.
    #[verifier::external_body]
    pub fn message(&mut self, from: Participant, data: Vec<u8>) {
        self.inner.message(CsParticipant::from(from.id), data);
    }
}

impl ReshareProtocol {
    /// Relies on cait-sith's Protocol::poke; a returned share is converted to
    /// 32 big-endian bytes.
    #[verifier::external_body]
    pub fn poke(&mut self) -> (r: Result<ReshareAction, ProtocolError>)
        ensures
            match r {
                Ok(a) => match a {
                    ReshareAction::Return { private_share } => private_share@.len() == 32,
                    _ => true,
                },
                Err(_) => true,
            },
    {
        match self.inner.poke() {
            Ok(CsAction::Wait) => Ok(ReshareAction::Wait),
            Ok(CsAction::SendMany(d)) => Ok(ReshareAction::SendMany(d)),
            Ok(CsAction::SendPrivate(p, d)) => Ok(ReshareAction::SendPrivate(Participant { id: u32::from(p) }, d)),
            Ok(CsAction::Return(s)) => Ok(ReshareAction::Return { private_share: s.to_bytes().to_vec() }),
            Err(CsProtocolError::AssertionFailed(s)) => Err(ProtocolError::AssertionFailed(s)),
            Err(CsProtocolError::Other(e)) => Err(ProtocolError::Other(format!("{}", e))),
        }
    }

    /// Relies on cait-sith's Protocol::message.
    #[verifier::external_body]
    pub fn message(&mut self, from: Participant, data: Vec<u8>) {
        self.inner.message(CsParticipant::from(from.id), data);
    }
}

/// Queue one generating-protocol broadcast for every roster member but this
/// node, in roster order, on the plaintext channel.
fn push_generating_broadcast(
    participants: &Participants,
    me: Participant,
    data: &Vec<u8>,
    outbound: &mut Vec<Outbound>,
)
    ensures
        final(outbound)@.len() == old(outbound)@.len() + spec_others(
            participants.spec_ids(),
            me,
        ).len(),
        final(outbound)@.subrange(0, old(outbound)@.len() as int) == old(outbound)@,
        forall|k: int|
            old(outbound)@.len() <= k < final(outbound)@.len() ==> {
                let o = #[trigger] final(outbound)@[k];
                &&& o.to == spec_others(participants.spec_ids(), me)[k - old(outbound)@.len()]
                &&& o.to != me
                &&& participants.spec_contains(o.to)
                &&& !o.encrypted
                &&& o.message matches MpcMessage::Generating(g) && g.from == me && g.data@ == data@
            },
{
    let ghost ids = participants.spec_ids();
    let ghost base = outbound@.len() as int;
    proof {
        lemma_spec_others(ids, me);
    }
    let n = participants.entries.len();
    let mut i: usize = 0;
    while i < n
        invariant
            n == participants.entries@.len(),
            ids == participants.spec_ids(),
            0 <= i <= n,
            outbound@.len() == base + spec_others(ids.take(i as int), me).len(),
            outbound@.subrange(0, base) == old(outbound)@,
            base == old(outbound)@.len(),
            forall|k: int|
                base <= k < outbound@.len() ==> {
                    let o = #[trigger] outbound@[k];
                    &&& o.to == spec_others(ids.take(i as int), me)[k - base]
                    &&& o.to != me
                    &&& participants.spec_contains(o.to)
                    &&& !o.encrypted
                    &&& o.message matches MpcMessage::Generating(g) && g.from == me && g.data@
                        == data@
                },
        decreases n - i,
    {
        let ghost prev = outbound@;
        let p = participants.entries[i].0;
        proof {
            assert(ids.take(i + 1).drop_last() =~= ids.take(i as int));
            assert(ids.take(i + 1).last() == ids[i as int]);
            assert(ids[i as int] == p);
        }
        if !(p == me) {
            let msg = MpcMessage::Generating(GeneratingMessage { from: me, data: data.clone() });
            outbound.push(Outbound { to: p, encrypted: false, message: msg });
            proof {
                assert(participants.entries@[i as int].0 == p);
                assert(participants.spec_contains(p));
                assert(outbound@.subrange(0, base) =~= prev.subrange(0, base));
            }
        }
        i = i + 1;
    }
    proof {
        assert(ids.take(n as int) =~= ids);
    }
}

/// Queue one resharing-protocol broadcast, tagged with the epoch being left,
/// for every new-roster member but this node.
fn push_resharing_broadcast(
    participants: &Participants,
    me: Participant,
    epoch: u64,
    data: &Vec<u8>,
    outbound: &mut Vec<Outbound>,
)
    ensures
        final(outbound)@.len() == old(outbound)@.len() + spec_others(
            participants.spec_ids(),
            me,
        ).len(),
        final(outbound)@.subrange(0, old(outbound)@.len() as int) == old(outbound)@,
        forall|k: int|
            old(outbound)@.len() <= k < final(outbound)@.len() ==> {
                let o = #[trigger] final(outbound)@[k];
                &&& o.to == spec_others(participants.spec_ids(), me)[k - old(outbound)@.len()]
                &&& o.to != me
                &&& participants.spec_contains(o.to)
                &&& !o.encrypted
                &&& o.message matches MpcMessage::Resharing(g) && g.from == me && g.epoch == epoch
                    && g.data@ == data@
            },
{
    let ghost ids = participants.spec_ids();
    let ghost base = outbound@.len() as int;
    proof {
        lemma_spec_others(ids, me);
    }
    let n = participants.entries.len();
    let mut i: usize = 0;
    while i < n
        invariant
            n == participants.entries@.len(),
            ids == participants.spec_ids(),
            0 <= i <= n,
            outbound@.len() == base + spec_others(ids.take(i as int), me).len(),
            outbound@.subrange(0, base) == old(outbound)@,
            base == old(outbound)@.len(),
            forall|k: int|
                base <= k < outbound@.len() ==> {
                    let o = #[trigger] outbound@[k];
                    &&& o.to == spec_others(ids.take(i as int), me)[k - base]
                    &&& o.to != me
                    &&& participants.spec_contains(o.to)
                    &&& !o.encrypted
                    &&& o.message matches MpcMessage::Resharing(g) && g.from == me && g.epoch
                        == epoch && g.data@ == data@
                },
        decreases n - i,
    {
        let ghost prev = outbound@;
        let p = participants.entries[i].0;
        proof {
            assert(ids.take(i + 1).drop_last() =~= ids.take(i as int));
            assert(ids.take(i + 1).last() == ids[i as int]);
            assert(ids[i as int] == p);
        }
        if !(p == me) {
            let msg = MpcMessage::Resharing(ResharingMessage {
                epoch,
                from: me,
                data: data.clone(),
            });
            outbound.push(Outbound { to: p, encrypted: false, message: msg });
            proof {
                assert(participants.entries@[i as int].0 == p);
                assert(participants.spec_contains(p));
                assert(outbound@.subrange(0, base) =~= prev.subrange(0, base));
            }
        }
        i = i + 1;
    }
    proof {
        assert(ids.take(n as int) =~= ids);
    }
}

/// What one translated protocol step means for the driver's loop.
pub enum KeygenStep {
    Continue,
    Wait,
    Return { private_share: Vec<u8>, public_key: Vec<u8> },
}

/// What one translated resharing step means for the driver's loop.
pub enum ReshareStep {
    Continue,
    Wait,
    Return { private_share: Vec<u8> },
}

/// Translate one key-generation action into outbound messages.  A broadcast
/// goes plain to every roster member but this node; a private message goes
/// encrypted to its recipient, who must be on the roster — a private message
/// for an unknown participant is the one error here, and nothing is queued
/// for it.  Nothing is ever addressed to this node itself.
pub fn apply_keygen_action(
    participants: &Participants,
    me: Participant,
    action: KeygenAction,
    outbound: &mut Vec<Outbound>,
) -> (r: Result<KeygenStep, CryptographicError>)
    ensures
        final(outbound)@.len() >= old(outbound)@.len(),
        final(outbound)@.subrange(0, old(outbound)@.len() as int) == old(outbound)@,
        forall|k: int|
            old(outbound)@.len() <= k < final(outbound)@.len() ==> {
                let o = #[trigger] final(outbound)@[k];
                &&& o.to != me
                &&& participants.spec_contains(o.to)
                &&& o.message matches MpcMessage::Generating(g) && g.from == me
            },
        match action {
            KeygenAction::Wait => r == Ok::<KeygenStep, CryptographicError>(KeygenStep::Wait)
                && final(outbound)@ == old(outbound)@,
            KeygenAction::SendMany(data) => {
                &&& r == Ok::<KeygenStep, CryptographicError>(KeygenStep::Continue)
                &&& final(outbound)@.len() == old(outbound)@.len() + spec_others(
                    participants.spec_ids(),
                    me,
                ).len()
                &&& forall|k: int|
                    old(outbound)@.len() <= k < final(outbound)@.len() ==> {
                        let o = #[trigger] final(outbound)@[k];
                        &&& o.to == spec_others(participants.spec_ids(), me)[k - old(
                            outbound,
                        )@.len()]
                        &&& !o.encrypted
                        &&& o.message matches MpcMessage::Generating(g) && g.from == me && g.data@
                            == data@
                    }
            },
            KeygenAction::SendPrivate(to, _) => {
                if to == me {
                    r == Ok::<KeygenStep, CryptographicError>(KeygenStep::Continue)
                        && final(outbound)@ == old(outbound)@
                } else if participants.spec_contains(to) {
                    &&& r == Ok::<KeygenStep, CryptographicError>(KeygenStep::Continue)
                    &&& final(outbound)@.len() == old(outbound)@.len() + 1
                    &&& final(outbound)@.last().to == to
                    &&& final(outbound)@.last().encrypted
                } else {
                    r == Err::<KeygenStep, CryptographicError>(
                        CryptographicError::UnknownParticipant(to),
                    ) && final(outbound)@ == old(outbound)@
                }
            },
            KeygenAction::Return { private_share, public_key } => r == Ok::<
                KeygenStep,
                CryptographicError,
            >(KeygenStep::Return { private_share, public_key })
                && final(outbound)@ == old(outbound)@,
        },
{
    match action {
        KeygenAction::Wait => Ok(KeygenStep::Wait),
        KeygenAction::SendMany(data) => {
            push_generating_broadcast(participants, me, &data, outbound);
            proof {
                lemma_spec_others(participants.spec_ids(), me);
            }
            Ok(KeygenStep::Continue)
        },
        KeygenAction::SendPrivate(to, data) => {
            if to == me {
                // The protocol never addresses its own node; refuse to loop a
                // share back to ourselves.
                Ok(KeygenStep::Continue)
            } else if participants.contains(to) {
                let msg = MpcMessage::Generating(GeneratingMessage { from: me, data });
                outbound.push(Outbound { to, encrypted: true, message: msg });
                proof {
                    assert(outbound@.subrange(0, old(outbound)@.len() as int) =~= old(outbound)@);
                }
                Ok(KeygenStep::Continue)
            } else {
                Err(CryptographicError::UnknownParticipant(to))
            }
        },
        KeygenAction::Return { private_share, public_key } => {
            Ok(KeygenStep::Return { private_share, public_key })
        },
    }
}

/// Translate one resharing action, tagging broadcasts and private messages
/// with the epoch being left; recipients come from the new roster.
pub fn apply_reshare_action(
    new_participants: &Participants,
    me: Participant,
    old_epoch: u64,
    action: ReshareAction,
    outbound: &mut Vec<Outbound>,
) -> (r: Result<ReshareStep, CryptographicError>)
    ensures
        final(outbound)@.len() >= old(outbound)@.len(),
        final(outbound)@.subrange(0, old(outbound)@.len() as int) == old(outbound)@,
        forall|k: int|
            old(outbound)@.len() <= k < final(outbound)@.len() ==> {
                let o = #[trigger] final(outbound)@[k];
                &&& o.to != me
                &&& new_participants.spec_contains(o.to)
                &&& o.message matches MpcMessage::Resharing(g) && g.from == me && g.epoch
                    == old_epoch
            },
        match action {
            ReshareAction::Wait => r == Ok::<ReshareStep, CryptographicError>(ReshareStep::Wait)
                && final(outbound)@ == old(outbound)@,
            ReshareAction::SendMany(data) => {
                &&& r == Ok::<ReshareStep, CryptographicError>(ReshareStep::Continue)
                &&& final(outbound)@.len() == old(outbound)@.len() + spec_others(
                    new_participants.spec_ids(),
                    me,
                ).len()
                &&& forall|k: int|
                    old(outbound)@.len() <= k < final(outbound)@.len() ==> {
                        let o = #[trigger] final(outbound)@[k];
                        &&& o.to == spec_others(new_participants.spec_ids(), me)[k - old(
                            outbound,
                        )@.len()]
                        &&& !o.encrypted
                        &&& o.message matches MpcMessage::Resharing(g) && g.from == me && g.epoch
                            == old_epoch && g.data@ == data@
                    }
            },
            ReshareAction::SendPrivate(to, _) => {
                if to == me {
                    r == Ok::<ReshareStep, CryptographicError>(ReshareStep::Continue)
                        && final(outbound)@ == old(outbound)@
                } else if new_participants.spec_contains(to) {
                    &&& r == Ok::<ReshareStep, CryptographicError>(ReshareStep::Continue)
                    &&& final(outbound)@.len() == old(outbound)@.len() + 1
                    &&& final(outbound)@.last().to == to
                    &&& final(outbound)@.last().encrypted
                } else {
                    r == Err::<ReshareStep, CryptographicError>(
                        CryptographicError::UnknownParticipant(to),
                    ) && final(outbound)@ == old(outbound)@
                }
            },
            ReshareAction::Return { private_share } => r == Ok::<ReshareStep, CryptographicError>(
                ReshareStep::Return { private_share },
            ) && final(outbound)@ == old(outbound)@,
        },
{
    match action {
        ReshareAction::Wait => Ok(ReshareStep::Wait),
        ReshareAction::SendMany(data) => {
            push_resharing_broadcast(new_participants, me, old_epoch, &data, outbound);
            proof {
                lemma_spec_others(new_participants.spec_ids(), me);
            }
            Ok(ReshareStep::Continue)
        },
        ReshareAction::SendPrivate(to, data) => {
            if to == me {
                Ok(ReshareStep::Continue)
            } else if new_participants.contains(to) {
                let msg = MpcMessage::Resharing(ResharingMessage {
                    epoch: old_epoch,
                    from: me,
                    data,
                });
                outbound.push(Outbound { to, encrypted: true, message: msg });
                proof {
                    assert(outbound@.subrange(0, old(outbound)@.len() as int) =~= old(outbound)@);
                }
                Ok(ReshareStep::Continue)
            } else {
                Err(CryptographicError::UnknownParticipant(to))
            }
        },
        ReshareAction::Return { private_share } => Ok(ReshareStep::Return { private_share }),
    }
}


impl GeneratingState {
    /// Drive key generation until it waits, completes, or fails, translating
    /// every action into outbound messages.  On completion the node moves to
    /// WaitingForConsensus at epoch zero, keeping the roster and threshold it
    /// was generating under; otherwise it stays Generating with both
    /// unchanged, and an error hands the state back beside the fault.  No
    /// outbound message is ever addressed to this node.
    pub fn progress(self, me: Participant) -> (r: Result<
        (NodeState, Vec<Outbound>),
        (NodeState, CryptographicError),
    >)
        ensures
            match r {
                Ok((ns, out)) => {
                    &&& forall|k: int|
                        0 <= k < out@.len() ==> {
                            let o = #[trigger] out@[k];
                            &&& o.to != me
                            &&& self.participants.spec_contains(o.to)
                            &&& o.message matches MpcMessage::Generating(g) && g.from == me
                        }
                    &&& match ns {
                        NodeState::Generating(g2) => g2.participants == self.participants
                            && g2.threshold == self.threshold,
                        NodeState::WaitingForConsensus(w) => {
                            &&& w.epoch == 0
                            &&& w.participants == self.participants
                            &&& w.threshold == self.threshold
                            &&& w.private_share@.len() == 32
                            &&& w.public_key@.len() == 33
                        },
                        _ => false,
                    }
                },
                Err((ns, e)) => {
                    &&& ns matches NodeState::Generating(g2) && g2.participants
                        == self.participants && g2.threshold == self.threshold
                    &&& (e is CaitSithProtocolError || e is UnknownParticipant)
                },
            },
    {
        let GeneratingState { participants, threshold, protocol } = self;
        let mut protocol = protocol;
        let mut outbound: Vec<Outbound> = Vec::new();
        let mut fuel: usize = MAX_ACTIONS_PER_POKE;
        while fuel > 0
            invariant
                participants == self.participants,
                threshold == self.threshold,
                forall|k: int|
                    0 <= k < outbound@.len() ==> {
                        let o = #[trigger] outbound@[k];
                        &&& o.to != me
                        &&& participants.spec_contains(o.to)
                        &&& o.message matches MpcMessage::Generating(g) && g.from == me
                    },
            decreases fuel,
        {
            fuel = fuel - 1;
            let action = match protocol.poke() {
                Ok(a) => a,
                Err(e) => {
                    let st = GeneratingState { participants, threshold, protocol };
                    return Err((
                        NodeState::Generating(st),
                        CryptographicError::CaitSithProtocolError(e),
                    ));
                },
            };
            let ghost prev = outbound@;
            match apply_keygen_action(&participants, me, action, &mut outbound) {
                Ok(KeygenStep::Continue) => {
                    proof {
                        assert(outbound@.subrange(0, prev.len() as int) == prev);
                        assert forall|k: int| 0 <= k < outbound@.len() implies {
                            let o = #[trigger] outbound@[k];
                            &&& o.to != me
                            &&& participants.spec_contains(o.to)
                            &&& o.message matches MpcMessage::Generating(g) && g.from == me
                        } by {
                            if k < prev.len() {
                                assert(outbound@.subrange(0, prev.len() as int)[k]
                                    == outbound@[k]);
                            }
                        }
                    }
                },
                Ok(KeygenStep::Wait) => {
                    let st = GeneratingState { participants, threshold, protocol };
                    return Ok((NodeState::Generating(st), outbound));
                },
                Ok(KeygenStep::Return { private_share, public_key }) => {
                    let w = WaitingForConsensusState {
                        epoch: 0,
                        participants,
                        threshold,
                        private_share,
                        public_key,
                    };
                    return Ok((NodeState::WaitingForConsensus(w), outbound));
                },
                Err(e) => {
                    let st = GeneratingState { participants, threshold, protocol };
                    return Err((NodeState::Generating(st), e));
                },
            }
        }
        let st = GeneratingState { participants, threshold, protocol };
        Ok((NodeState::Generating(st), outbound))
    }
}

impl ResharingState {
    /// Drive resharing until it waits, completes, or fails.  Outbound
    /// messages go to the new roster, tagged with the epoch being left.  On
    /// completion the node moves to WaitingForConsensus at the next epoch,
    /// carrying the new roster and the unchanged public key.
    pub fn progress(self, me: Participant) -> (r: Result<
        (NodeState, Vec<Outbound>),
        (NodeState, CryptographicError),
    >)
        requires
            self.old_epoch < u64::MAX,
        ensures
            match r {
                Ok((ns, out)) => {
                    &&& forall|k: int|
                        0 <= k < out@.len() ==> {
                            let o = #[trigger] out@[k];
                            &&& o.to != me
                            &&& self.new_participants.spec_contains(o.to)
                            &&& o.message matches MpcMessage::Resharing(g) && g.from == me
                                && g.epoch == self.old_epoch
                        }
                    &&& match ns {
                        NodeState::Resharing(s2) => {
                            &&& s2.old_epoch == self.old_epoch
                            &&& s2.old_participants == self.old_participants
                            &&& s2.new_participants == self.new_participants
                            &&& s2.threshold == self.threshold
                            &&& s2.public_key == self.public_key
                        },
                        NodeState::WaitingForConsensus(w) => {
                            &&& w.epoch == self.old_epoch + 1
                            &&& w.participants == self.new_participants
                            &&& w.threshold == self.threshold
                            &&& w.public_key == self.public_key
                            &&& w.private_share@.len() == 32
                        },
                        _ => false,
                    }
                },
                Err((ns, e)) => {
                    &&& ns matches NodeState::Resharing(s2) && s2.old_epoch == self.old_epoch
                        && s2.old_participants == self.old_participants && s2.new_participants
                        == self.new_participants && s2.threshold == self.threshold && s2.public_key
                        == self.public_key
                    &&& (e is CaitSithProtocolError || e is UnknownParticipant)
                },
            },
    {
        let ResharingState {
            old_epoch,
            old_participants,
            new_participants,
            threshold,
            public_key,
            protocol,
        } = self;
        let mut protocol = protocol;
        let mut outbound: Vec<Outbound> = Vec::new();
        let mut fuel: usize = MAX_ACTIONS_PER_POKE;
        while fuel > 0
            invariant
                old_epoch == self.old_epoch,
                old_epoch < u64::MAX,
                old_participants == self.old_participants,
                new_participants == self.new_participants,
                threshold == self.threshold,
                public_key == self.public_key,
                forall|k: int|
                    0 <= k < outbound@.len() ==> {
                        let o = #[trigger] outbound@[k];
                        &&& o.to != me
                        &&& new_participants.spec_contains(o.to)
                        &&& o.message matches MpcMessage::Resharing(g) && g.from == me && g.epoch
                            == old_epoch
                    },
            decreases fuel,
        {
            fuel = fuel - 1;
            let action = match protocol.poke() {
                Ok(a) => a,
                Err(e) => {
                    let st = ResharingState {
                        old_epoch,
                        old_participants,
                        new_participants,
                        threshold,
                        public_key,
                        protocol,
                    };
                    return Err((
                        NodeState::Resharing(st),
                        CryptographicError::CaitSithProtocolError(e),
                    ));
                },
            };
            let ghost prev = outbound@;
            match apply_reshare_action(&new_participants, me, old_epoch, action, &mut outbound) {
                Ok(ReshareStep::Continue) => {
                    proof {
                        assert(outbound@.subrange(0, prev.len() as int) == prev);
                        assert forall|k: int| 0 <= k < outbound@.len() implies {
                            let o = #[trigger] outbound@[k];
                            &&& o.to != me
                            &&& new_participants.spec_contains(o.to)
                            &&& o.message matches MpcMessage::Resharing(g) && g.from == me
                                && g.epoch == old_epoch
                        } by {
                            if k < prev.len() {
                                assert(outbound@.subrange(0, prev.len() as int)[k]
                                    == outbound@[k]);
                            }
                        }
                    }
                },
                Ok(ReshareStep::Wait) => {
                    let st = ResharingState {
                        old_epoch,
                        old_participants,
                        new_participants,
                        threshold,
                        public_key,
                        protocol,
                    };
                    return Ok((NodeState::Resharing(st), outbound));
                },
                Ok(ReshareStep::Return { private_share }) => {
                    let w = WaitingForConsensusState {
                        epoch: old_epoch + 1,
                        participants: new_participants,
                        threshold,
                        private_share,
                        public_key,
                    };
                    return Ok((NodeState::WaitingForConsensus(w), outbound));
                },
                Err(e) => {
                    let st = ResharingState {
                        old_epoch,
                        old_participants,
                        new_participants,
                        threshold,
                        public_key,
                        protocol,
                    };
                    return Err((NodeState::Resharing(st), e));
                },
            }
        }
        let st = ResharingState {
            old_epoch,
            old_participants,
            new_participants,
            threshold,
            public_key,
            protocol,
        };
        Ok((NodeState::Resharing(st), outbound))
    }
}

/// How the steady-state driver routes the triple manager's tagged messages:
/// a message addressed to this node is dropped, a broadcast-tagged message
/// goes on the plaintext channel, and a private-tagged one goes encrypted.
pub open spec fn spec_routed(
    msgs: Seq<(bool, Participant, TripleMessage)>,
    me: Participant,
) -> Seq<Outbound>
    decreases msgs.len(),
{
    if msgs.len() == 0 {
        Seq::empty()
    } else {
        let m = msgs[0];
        let rest = spec_routed(msgs.skip(1), me);
        if m.1 == me {
            rest
        } else {
            seq![Outbound { to: m.1, encrypted: !m.0, message: MpcMessage::Triple(m.2) }] + rest
        }
    }
}

impl RunningState {
    /// One steady-state tick: top the triple stockpile up if fewer than two
    /// triples are complete or underway — afterwards a fresh protocol is in
    /// flight or already complete, unless its random id collided with work
    /// already underway — and with a full enough stockpile start nothing new.
    /// Then drain the triple manager's messages, routing each as
    /// `spec_routed` says: nothing to this node, broadcasts plain, private
    /// messages encrypted.  Completed triples stay in the pool; the epoch,
    /// roster, key material and every triple completed earlier are unchanged.
    /// With nothing in flight and a full enough stockpile the tick succeeds
    /// and sends nothing; a failure is an unknown recipient or a fault
    /// starting or driving a protocol.
    pub fn progress(self, me: Participant) -> (r: Result<
        (NodeState, Vec<Outbound>),
        (NodeState, CryptographicError),
    >)
        requires
            self.triple_manager.participants@.len() > 0,
            self.triple_manager.epoch == self.epoch,
            self.triple_manager.me == me,
        ensures
            (self.triple_manager.generators@.len() == 0 && self.triple_manager.triples@.len()
                >= 2) ==> (r matches Ok((ns2, out2)) && out2@.len() == 0 && (ns2 matches
                NodeState::Running(s3) && s3.triple_manager.triples@
                == self.triple_manager.triples@ && s3.triple_manager.mine@
                == self.triple_manager.mine@ && s3.triple_manager.generators@.len() == 0)),
            match r {
                Ok((ns, out)) => {
                    &&& exists|msgs: Seq<(bool, Participant, TripleMessage)>|
                        {
                            &&& out@ == spec_routed(msgs, me)
                            &&& forall|k: int|
                                0 <= k < msgs.len() ==> (#[trigger] msgs[k]).2.from == me
                                    && msgs[k].2.epoch == self.epoch
                        }
                    &&& forall|k: int|
                        0 <= k < out@.len() ==> {
                            let o = #[trigger] out@[k];
                            &&& o.to != me
                            &&& self.participants.spec_contains(o.to)
                            &&& o.message matches MpcMessage::Triple(t) && t.from == me && t.epoch
                                == self.epoch
                        }
                    &&& match ns {
                        NodeState::Running(s2) => {
                            &&& s2.epoch == self.epoch
                            &&& s2.participants == self.participants
                            &&& s2.threshold == self.threshold
                            &&& s2.private_share == self.private_share
                            &&& s2.public_key == self.public_key
                            &&& forall|id: u64| #[trigger]
                                self.triple_manager.triples@.contains_key(id)
                                    ==> s2.triple_manager.triples@.contains_key(id)
                                    && s2.triple_manager.triples@[id]
                                    == self.triple_manager.triples@[id]
                            &&& (self.triple_manager.triples@.len()
                                + self.triple_manager.generators@.len() < 2) ==> exists|
                                id: TripleId,
                            |
                                {
                                    ||| (!self.triple_manager.gen_ids().contains(id) && (
                                    s2.triple_manager.gen_ids().contains(id)
                                        || s2.triple_manager.triples@.contains_key(id)))
                                    ||| self.triple_manager.gen_ids().contains(id)
                                }
                            &&& (self.triple_manager.triples@.len()
                                + self.triple_manager.generators@.len() >= 2) ==> (forall|
                                id: TripleId,
                            | #[trigger]
                                s2.triple_manager.gen_ids().contains(id)
                                    ==> self.triple_manager.gen_ids().contains(id))
                        },
                        _ => false,
                    }
                },
                Err((ns, e)) => {
                    &&& ns matches NodeState::Running(s2) && s2.epoch == self.epoch
                        && s2.participants == self.participants && s2.threshold == self.threshold
                        && s2.private_share == self.private_share && s2.public_key
                        == self.public_key
                    &&& (e is UnknownParticipant || e is CaitSithInitializationError
                        || e is CaitSithProtocolError)
                },
            },
    {
        let RunningState {
            epoch,
            participants,
            threshold,
            private_share,
            public_key,
            triple_manager,
        } = self;
        let mut triple_manager = triple_manager;
        let mut outbound: Vec<Outbound> = Vec::new();
        let l = triple_manager.len();
        let g = triple_manager.generators.len();
        if l < 2 && g < 2 - l {
            match triple_manager.generate() {
                Ok(()) => {},
                Err(e) => {
                    let st = RunningState {
                        epoch,
                        participants,
                        threshold,
                        private_share,
                        public_key,
                        triple_manager,
                    };
                    return Err((
                        NodeState::Running(st),
                        CryptographicError::CaitSithInitializationError(e),
                    ));
                },
            }
        }
        let ghost tm_gen = triple_manager;
        let mut msgs = match triple_manager.poke() {
            Ok(m) => m,
            Err(e) => {
                let st = RunningState {
                    epoch,
                    participants,
                    threshold,
                    private_share,
                    public_key,
                    triple_manager,
                };
                return Err((
                    NodeState::Running(st),
                    CryptographicError::CaitSithProtocolError(e),
                ));
            },
        };
        let ghost topup_id: TripleId = if self.triple_manager.triples@.len()
            + self.triple_manager.generators@.len() < 2 {
            choose|id: TripleId|
                {
                    ||| (!self.triple_manager.gen_ids().contains(id) && tm_gen.gen_ids()
                        == self.triple_manager.gen_ids().push(id))
                    ||| (self.triple_manager.gen_ids().contains(id) && tm_gen.generators
                        == self.triple_manager.generators)
                }
        } else {
            0
        };
        proof {
            if self.triple_manager.triples@.len() + self.triple_manager.generators@.len() < 2 {
                if !self.triple_manager.gen_ids().contains(topup_id) {
                    assert(tm_gen.gen_ids()[tm_gen.gen_ids().len() - 1] == topup_id);
                    assert(tm_gen.gen_ids().contains(topup_id));
                    assert(triple_manager.gen_ids().contains(topup_id)
                        || triple_manager.triples@.contains_key(topup_id));
                }
            }
        }
        let ghost msgs0 = msgs@;
        while msgs.len() > 0
            invariant
                epoch == self.epoch,
                participants == self.participants,
                threshold == self.threshold,
                private_share == self.private_share,
                public_key == self.public_key,
                forall|id: u64| #[trigger]
                    self.triple_manager.triples@.contains_key(id)
                        ==> triple_manager.triples@.contains_key(id)
                        && triple_manager.triples@[id] == self.triple_manager.triples@[id],
                (self.triple_manager.triples@.len() + self.triple_manager.generators@.len() < 2)
                    ==> ((!self.triple_manager.gen_ids().contains(topup_id) && (
                    triple_manager.gen_ids().contains(topup_id)
                        || triple_manager.triples@.contains_key(topup_id)))
                    || self.triple_manager.gen_ids().contains(topup_id)),
                (self.triple_manager.triples@.len() + self.triple_manager.generators@.len() >= 2)
                    ==> (forall|id: TripleId| #[trigger]
                    triple_manager.gen_ids().contains(id)
                        ==> self.triple_manager.gen_ids().contains(id)),
                forall|k: int|
                    0 <= k < msgs0.len() ==> (#[trigger] msgs0[k]).2.from == me
                        && msgs0[k].2.epoch == self.epoch,
                forall|k: int|
                    0 <= k < msgs@.len() ==> (#[trigger] msgs@[k]).2.from == me && msgs@[k].2.epoch
                        == self.epoch,
                msgs@.len() <= msgs0.len(),
                (self.triple_manager.generators@.len() == 0
                    && self.triple_manager.triples@.len() >= 2) ==> msgs0.len() == 0,
                spec_routed(msgs0, me) == outbound@ + spec_routed(msgs@, me),
                forall|k: int|
                    0 <= k < outbound@.len() ==> {
                        let o = #[trigger] outbound@[k];
                        &&& o.to != me
                        &&& participants.spec_contains(o.to)
                        &&& o.message matches MpcMessage::Triple(t) && t.from == me && t.epoch
                            == self.epoch
                    },
            decreases msgs@.len(),
        {
            let ghost rem = msgs@;
            let (is_public, p, msg) = msgs.remove(0);
            proof {
                assert(msgs@ =~= rem.skip(1));
                assert(rem[0].0 == is_public && rem[0].1 == p && rem[0].2 == msg);
            }
            if p == me {
                // The manager fans a broadcast out to the whole roster,
                // ourselves included; nothing is ever transmitted to self.
                proof {
                    assert(spec_routed(rem, me) == spec_routed(rem.skip(1), me));
                    assert(spec_routed(msgs0, me) =~= outbound@ + spec_routed(msgs@, me));
                }
            } else {
                if participants.contains(p) {
                    let ghost prev = outbound@;
                    outbound.push(Outbound {
                        to: p,
                        encrypted: !is_public,
                        message: MpcMessage::Triple(msg),
                    });
                    proof {
                        assert(spec_routed(rem, me) == seq![
                            Outbound { to: p, encrypted: !is_public, message: MpcMessage::Triple(msg) },
                        ] + spec_routed(rem.skip(1), me));
                        assert(spec_routed(msgs0, me) =~= outbound@ + spec_routed(msgs@, me));
                    }
                } else {
                    let st = RunningState {
                        epoch,
                        participants,
                        threshold,
                        private_share,
                        public_key,
                        triple_manager,
                    };
                    return Err((
                        NodeState::Running(st),
                        CryptographicError::UnknownParticipant(p),
                    ));
                }
            }
        }
        proof {
            assert(spec_routed(msgs@, me) =~= Seq::<Outbound>::empty());
            assert(outbound@ =~= spec_routed(msgs0, me));
        }
        let st = RunningState {
            epoch,
            participants,
            threshold,
            private_share,
            public_key,
            triple_manager,
        };
        Ok((NodeState::Running(st), outbound))
    }
}

impl NodeState {
    /// Advance any in-flight protocol one step.  The epoch never decreases:
    /// finished key generation enters WaitingForConsensus at epoch zero, and
    /// finished resharing enters it one above the epoch being left, with the
    /// public key unchanged.  No outbound message is addressed to this node.
    /// A state with no protocol in flight always comes back unchanged and
    /// successful; on an error the state comes back beside the fault, in the
    /// same phase and at the same epoch.
    pub fn progress(self, me: Participant) -> (r: Result<
        (NodeState, Vec<Outbound>),
        (NodeState, CryptographicError),
    >)
        requires
            self matches NodeState::Resharing(s) ==> s.old_epoch < u64::MAX,
            self matches NodeState::Running(s) ==> s.triple_manager.participants@.len() > 0
                && s.triple_manager.epoch == s.epoch && s.triple_manager.me == me,
        ensures
            !(self is Generating) && !(self is Resharing) && !(self is Running) ==> (r matches Ok((
                ns,
                out,
            )) && ns == self && out@.len() == 0),
            match r {
                Ok((ns, out)) => {
                    &&& ns.spec_epoch() >= self.spec_epoch()
                    &&& (self is Generating ==> (ns is Generating || ns is WaitingForConsensus))
                    &&& (self is Resharing ==> (ns is Resharing || ns is WaitingForConsensus))
                    &&& (self is Running ==> ns is Running)
                    &&& forall|k: int| 0 <= k < out@.len() ==> (#[trigger] out@[k]).to != me
                    &&& (self matches NodeState::Generating(g) ==> (ns matches
                        NodeState::WaitingForConsensus(w) ==> w.epoch == 0 && w.participants
                        == g.participants))
                    &&& (self matches NodeState::Resharing(s) ==> (ns matches
                        NodeState::WaitingForConsensus(w) ==> w.epoch == s.old_epoch + 1
                        && w.public_key == s.public_key && w.participants == s.new_participants))
                    &&& (!(self is Generating) && !(self is Resharing) && !(self is Running) ==> ns
                        == self && out@.len() == 0)
                },
                Err((ns, e)) => {
                    &&& ns.spec_epoch() == self.spec_epoch()
                    &&& (self is Generating ==> ns is Generating)
                    &&& (self is Resharing ==> ns is Resharing)
                    &&& (self is Running ==> ns is Running)
                    &&& (!(self is Generating) && !(self is Resharing) && !(self is Running) ==> ns == self)
                },
            },
    {
        match self {
            NodeState::Generating(state) => state.progress(me),
            NodeState::Resharing(state) => state.progress(me),
            NodeState::Running(state) => state.progress(me),
            other => Ok((other, Vec::new())),
        }
    }
}

} // verus!
