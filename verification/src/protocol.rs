use vstd::prelude::*;
use crate::consensus::{advance, spec_advance, ContractState};
use crate::cryptography::Outbound;
use crate::errors::CryptographicError;
use crate::consensus::ConsensusError;
use crate::message::{
    handle, handled_state_ok, spec_inbound_generating, spec_inbound_presignature,
    spec_inbound_resharing, spec_inbound_signature, spec_inbound_triple, MpcMessage,
    MpcMessageQueue,
};
use crate::state::NodeState;
use crate::types::Participant;

verus! {

/// Why a tick ended early or finished with a complaint; the state that comes
/// back beside it is the one to carry into the next tick.
pub enum TickError {
    Cryptographic(CryptographicError),
    Consensus(ConsensusError),
}

/// One tick of the control loop: file the freshly received messages into the
/// queue, kind by kind, drive the in-flight protocol one step, react to the
/// contract's declared state, and dispatch whatever buffered messages the new
/// state accepts.  The caller performs everything around it — fetching the
/// contract state, receiving and delivering messages, persisting key material
/// — and hands the results in as plain values.
///
/// Every inbound message is filed before anything else can fail, so none is
/// lost: afterwards each queue holds what it held plus the inbound messages
/// of its kind, less only what the new state's dispatch consumed.  On a tick
/// that observed the contract and ended without a fault, the returned state
/// is what `advance` yields for some progressed state, with the accepted
/// messages dispatched into it.
///
/// The epoch never decreases, unless the node finds itself outside the roster
/// and moves to Joining; and no outbound message is ever addressed to this
/// node.  When the contract could not be observed this tick, the state comes
/// back untouched and nothing is sent.  A consensus fault hands back the
/// progressed state, before the refused transition; whatever happens, the
/// phase that comes back is one the input phase can reach in a single tick.
pub fn tick(
    state: NodeState,
    contract: Option<ContractState>,
    inbound: Vec<MpcMessage>,
    queue: &mut MpcMessageQueue,
    me: Participant,
    my_account_id: &String,
    triple_stockpile: Option<usize>,
) -> (r: (NodeState, Vec<Outbound>, Option<TickError>))
    requires
        !(state is Starting),
        state matches NodeState::Resharing(s) ==> s.old_epoch < u64::MAX,
        state matches NodeState::Running(s) ==> s.triple_manager.participants@.len() > 0
            && s.triple_manager.epoch == s.epoch && s.triple_manager.me == me,
    ensures
        !(r.0 is Joining) ==> r.0.spec_epoch() >= state.spec_epoch(),
        forall|k: int| 0 <= k < r.1@.len() ==> (#[trigger] r.1@[k]).to != me,
        contract is None ==> r.0 == state && r.1@.len() == 0 && r.2 is None,
        !(r.0 is Starting),
        final(queue).presignature@ == old(queue).presignature@ + spec_inbound_presignature(
            inbound@,
        ),
        final(queue).signature@ == old(queue).signature@ + spec_inbound_signature(inbound@),
        final(queue).generating@ == old(queue).generating@ + spec_inbound_generating(inbound@)
            || final(queue).generating@.len() == 0,
        final(queue).resharing@ == old(queue).resharing@ + spec_inbound_resharing(inbound@)
            || final(queue).resharing@.len() == 0,
        r.2 is None ==> (final(queue).triple@ == old(queue).triple@ + spec_inbound_triple(inbound@)
            || final(queue).triple@.len() == 0),
        (contract is Some && r.2 is None) ==> exists|mid: NodeState, adv: NodeState|
            spec_advance(
                mid,
                contract->0,
                my_account_id@,
                triple_stockpile,
                Result::<NodeState, (NodeState, ConsensusError)>::Ok(adv),
            ) && handled_state_ok(
                adv,
                r.0,
                old(queue).triple@ + spec_inbound_triple(inbound@),
            ),
        (!(state is Joining) && r.2 matches Some(TickError::Consensus(_))) ==> (!(r.0 is Joining)
            && r.0.spec_epoch() >= state.spec_epoch()),
        (contract is Some && state is Generating) ==> (r.0 is Generating
            || r.0 is WaitingForConsensus || r.0 is Running || r.0 is Resharing
            || r.0 is Joining),
        (contract is Some && state is Resharing) ==> (r.0 is Resharing
            || r.0 is WaitingForConsensus || r.0 is Running || r.0 is Joining),
        (contract is Some && state is Running) ==> (r.0 is Running || r.0 is Resharing
            || r.0 is Joining),
{
    let ghost inb0 = inbound@;
    let mut inbound = inbound;
    while inbound.len() > 0
        invariant
            old(queue).generating@ + spec_inbound_generating(inb0) == queue.generating@
                + spec_inbound_generating(inbound@),
            old(queue).resharing@ + spec_inbound_resharing(inb0) == queue.resharing@
                + spec_inbound_resharing(inbound@),
            old(queue).triple@ + spec_inbound_triple(inb0) == queue.triple@ + spec_inbound_triple(
                inbound@,
            ),
            old(queue).presignature@ + spec_inbound_presignature(inb0) == queue.presignature@
                + spec_inbound_presignature(inbound@),
            old(queue).signature@ + spec_inbound_signature(inb0) == queue.signature@
                + spec_inbound_signature(inbound@),
        decreases inbound@.len(),
    {
        let ghost rem = inbound@;
        let ghost q_pre = *queue;
        let m = inbound.remove(0);
        queue.push(m);
        proof {
            assert(inbound@ =~= rem.skip(1));
            assert(q_pre.generating@ + spec_inbound_generating(rem) =~= queue.generating@
                + spec_inbound_generating(inbound@));
            assert(q_pre.resharing@ + spec_inbound_resharing(rem) =~= queue.resharing@
                + spec_inbound_resharing(inbound@));
            assert(q_pre.triple@ + spec_inbound_triple(rem) =~= queue.triple@
                + spec_inbound_triple(inbound@));
            assert(q_pre.presignature@ + spec_inbound_presignature(rem) =~= queue.presignature@
                + spec_inbound_presignature(inbound@));
            assert(q_pre.signature@ + spec_inbound_signature(rem) =~= queue.signature@
                + spec_inbound_signature(inbound@));
        }
    }
    proof {
        assert(queue.generating@ =~= old(queue).generating@ + spec_inbound_generating(inb0));
        assert(queue.resharing@ =~= old(queue).resharing@ + spec_inbound_resharing(inb0));
        assert(queue.triple@ =~= old(queue).triple@ + spec_inbound_triple(inb0));
        assert(queue.presignature@ =~= old(queue).presignature@ + spec_inbound_presignature(inb0));
        assert(queue.signature@ =~= old(queue).signature@ + spec_inbound_signature(inb0));
    }
    let contract_state = match contract {
        Some(c) => c,
        None => {
            // The contract could not be observed this tick; retry next tick.
            return (state, Vec::new(), None);
        },
    };
    let (state, outbound) = match state.progress(me) {
        Ok(pair) => pair,
        Err((ns, e)) => {
            return (ns, Vec::new(), Some(TickError::Cryptographic(e)));
        },
    };
    let state = match advance(state, contract_state, my_account_id, triple_stockpile) {
        Ok(ns) => ns,
        Err((ns, e)) => {
            return (ns, outbound, Some(TickError::Consensus(e)));
        },
    };
    match handle(state, queue) {
        Ok(ns) => (ns, outbound, None),
        Err((ns, e)) => (ns, outbound, Some(TickError::Cryptographic(e))),
    }
}

} // verus!
