use k256::elliptic_curve::group::GroupEncoding;
use k256::elliptic_curve::PrimeField;
use k256::{ProjectivePoint, Scalar};

use mpc_node::consensus::{advance, load_started, ContractState};
use mpc_node::cryptography::{apply_keygen_action, KeygenAction, Outbound};
use mpc_node::message::{handle, MpcMessage, MpcMessageQueue};
use mpc_node::state::{NodeState, PersistentNodeData, WaitingForConsensusState};
use mpc_node::types::{Participant, ParticipantInfo, Participants};

fn roster_of(ids: &[u32]) -> Participants {
    let mut roster = Participants::new();
    for i in ids {
        roster.push(
            Participant::new(*i),
            ParticipantInfo {
                account_id: format!("node{i}.near"),
                url: format!("http://127.0.0.1:300{i}"),
                cipher_pk: vec![*i as u8; 32],
                sign_pk: vec![*i as u8; 32],
            },
        );
    }
    roster
}

fn account_of(i: u32) -> String {
    format!("node{i}.near")
}

/// Deliver every outbound message into its recipient's queue; the nodes are
/// indexed by participant id.
fn deliver(outbound: Vec<Outbound>, queues: &mut [MpcMessageQueue]) {
    for o in outbound {
        queues[o.to.id as usize].push(o.message);
    }
}

/// Tick every node once: progress, deliver, handle.  Panics on any protocol
/// error.  Returns whether anything was sent.
fn drive_round(states: &mut Vec<NodeState>, queues: &mut Vec<MpcMessageQueue>) -> bool {
    let mut sent = false;
    for i in 0..states.len() {
        let st = std::mem::replace(&mut states[i], NodeState::Starting);
        let me = Participant::new(i as u32);
        let (st, outbound) = match st.progress(me) {
            Ok(pair) => pair,
            Err((_, e)) => panic!("progress failed: {:?}", e),
        };
        sent = sent || !outbound.is_empty();
        deliver(outbound, queues);
        let st = match handle(st, &mut queues[i]) {
            Ok(st) => st,
            Err((_, e)) => panic!("handle failed: {:?}", e),
        };
        states[i] = st;
    }
    sent
}

fn all_waiting(states: &Vec<NodeState>) -> bool {
    states
        .iter()
        .all(|s| matches!(s, NodeState::WaitingForConsensus(_)))
}

/// Reconstruct the secret from all n shares under Lagrange interpolation at
/// zero, with participant i standing at x = i + 1, and compare the matching
/// public key.
fn reconstructed_key(shares: &[(u32, Vec<u8>)]) -> Vec<u8> {
    let points: Vec<(Scalar, Scalar)> = shares
        .iter()
        .map(|(id, bytes)| {
            let arr: [u8; 32] = bytes.as_slice().try_into().unwrap();
            let share = Scalar::from_repr(arr.into()).unwrap();
            (Scalar::from(*id as u64 + 1), share)
        })
        .collect();
    let mut secret = Scalar::ZERO;
    for (xi, yi) in &points {
        let mut lambda = Scalar::ONE;
        for (xj, _) in &points {
            if xj != xi {
                lambda = lambda * *xj * (*xj - *xi).invert().unwrap();
            }
        }
        secret = secret + lambda * *yi;
    }
    (ProjectivePoint::GENERATOR * secret)
        .to_affine()
        .to_bytes()
        .to_vec()
}

#[test]
fn happy_dkg_five_of_five() {
    let n = 5u32;
    let roster = roster_of(&[0, 1, 2, 3, 4]);
    let contract = || ContractState::Initializing {
        candidates: roster_of(&[0, 1, 2, 3, 4]),
        threshold: 5,
    };
    let mut states: Vec<NodeState> = Vec::new();
    let mut queues: Vec<MpcMessageQueue> = Vec::new();
    for i in 0..n {
        let started = load_started(None);
        let st = advance(started, contract(), &account_of(i), None).map_err(|(_, e)| e).unwrap();
        assert!(matches!(st, NodeState::Generating(_)));
        states.push(st);
        queues.push(MpcMessageQueue::new());
    }
    let mut rounds = 0;
    while !all_waiting(&states) {
        drive_round(&mut states, &mut queues);
        rounds += 1;
        assert!(rounds < 1000, "the key generation must settle");
    }
    let mut public_keys: Vec<Vec<u8>> = Vec::new();
    let mut shares: Vec<(u32, Vec<u8>)> = Vec::new();
    for (i, st) in states.iter().enumerate() {
        match st {
            NodeState::WaitingForConsensus(w) => {
                assert_eq!(w.epoch, 0, "key generation settles at epoch zero");
                public_keys.push(w.public_key.clone());
                shares.push((i as u32, w.private_share.clone()));
            }
            _ => panic!("every node must be waiting for consensus"),
        }
    }
    for pk in &public_keys {
        assert_eq!(pk, &public_keys[0], "all nodes agree on the public key");
    }
    assert_eq!(
        reconstructed_key(&shares),
        public_keys[0],
        "the shares reconstruct the shared public key"
    );
    let _ = roster;
}

#[test]
fn resharing_bumps_the_epoch_and_keeps_the_key() {
    // A quorum of {0,1,2,3} at threshold 3 generates a key...
    let contract = || ContractState::Initializing {
        candidates: roster_of(&[0, 1, 2, 3]),
        threshold: 3,
    };
    let mut states: Vec<NodeState> = Vec::new();
    let mut queues: Vec<MpcMessageQueue> = Vec::new();
    for i in 0..4u32 {
        let st = advance(load_started(None), contract(), &account_of(i), None).map_err(|(_, e)| e).unwrap();
        states.push(st);
        queues.push(MpcMessageQueue::new());
    }
    let mut rounds = 0;
    while !all_waiting(&states) {
        drive_round(&mut states, &mut queues);
        rounds += 1;
        assert!(rounds < 1000);
    }
    // ... and stands at epoch 3 when the contract calls for a reshare to
    // {0,1,2,4}.
    let mut shares: Vec<Vec<u8>> = Vec::new();
    let mut public_key: Vec<u8> = Vec::new();
    for st in &states {
        match st {
            NodeState::WaitingForConsensus(w) => {
                shares.push(w.private_share.clone());
                public_key = w.public_key.clone();
            }
            _ => unreachable!(),
        }
    }
    let resharing_contract = || ContractState::Resharing {
        old_epoch: 3,
        old_participants: roster_of(&[0, 1, 2, 3]),
        new_participants: roster_of(&[0, 1, 2, 4]),
        threshold: 3,
        public_key: public_key.clone(),
    };
    // Nodes 0..3 observe the reshare from a settled epoch-3 state.
    let mut new_states: Vec<NodeState> = Vec::new();
    for i in 0..4u32 {
        let w = NodeState::WaitingForConsensus(WaitingForConsensusState {
            epoch: 3,
            participants: roster_of(&[0, 1, 2, 3]),
            threshold: 3,
            private_share: shares[i as usize].clone(),
            public_key: public_key.clone(),
        });
        let st = advance(w, resharing_contract(), &account_of(i), None).map_err(|(_, e)| e).unwrap();
        new_states.push(st);
    }
    // Node 3 is out of the new roster and moves aside.
    assert!(matches!(new_states[3], NodeState::Joining(_)));
    // Node 4 is new: it has nothing on disk and joins the reshare.
    let node4 = advance(
        load_started(None),
        resharing_contract(),
        &account_of(4),
        None,
    )
    .map_err(|(_, e)| e)
    .unwrap();
    assert!(matches!(node4, NodeState::Resharing(_)));

    // Drive nodes 0, 1, 2 and 4; participant ids map to queue slots.
    let mut states: Vec<NodeState> = Vec::new();
    states.push(std::mem::replace(&mut new_states[0], NodeState::Starting));
    states.push(std::mem::replace(&mut new_states[1], NodeState::Starting));
    states.push(std::mem::replace(&mut new_states[2], NodeState::Starting));
    states.push(NodeState::Starting); // placeholder slot for node 3
    states.push(node4);
    let mut queues: Vec<MpcMessageQueue> = (0..5).map(|_| MpcMessageQueue::new()).collect();
    let mut rounds = 0;
    loop {
        let done = states
            .iter()
            .enumerate()
            .all(|(i, s)| i == 3 || matches!(s, NodeState::WaitingForConsensus(_)));
        if done {
            break;
        }
        for i in [0usize, 1, 2, 4] {
            let st = std::mem::replace(&mut states[i], NodeState::Starting);
            let me = Participant::new(i as u32);
            let (st, outbound) = st.progress(me).map_err(|(_, e)| e).unwrap();
            deliver(outbound, &mut queues);
            let st = handle(st, &mut queues[i]).map_err(|(_, e)| e).unwrap();
            states[i] = st;
        }
        rounds += 1;
        assert!(rounds < 1000, "the reshare must settle");
    }
    let mut new_shares: Vec<(u32, Vec<u8>)> = Vec::new();
    for i in [0usize, 1, 2, 4] {
        match &states[i] {
            NodeState::WaitingForConsensus(w) => {
                assert_eq!(w.epoch, 4, "resharing bumps the epoch by one");
                assert_eq!(w.public_key, public_key, "the public key is unchanged");
                new_shares.push((i as u32, w.private_share.clone()));
            }
            _ => unreachable!(),
        }
    }
    // Node 4's share is new: it matches the old key under reconstruction,
    // and is no copy of anything it could have seen.
    let node4_share = &new_shares[3].1;
    assert_eq!(node4_share.len(), 32);
    for old in &shares {
        assert_ne!(node4_share, old, "the joining node holds a fresh share");
    }
    assert_eq!(
        reconstructed_key(&new_shares),
        public_key,
        "the reshared shares still reconstruct the same key"
    );
}

#[test]
fn unknown_participant_surfaces_and_nothing_is_queued() {
    let roster = roster_of(&[0, 1, 2]);
    let me = Participant::new(0);
    let mut outbound: Vec<Outbound> = Vec::new();
    let r = apply_keygen_action(
        &roster,
        me,
        KeygenAction::SendPrivate(Participant::new(99), vec![1, 2, 3]),
        &mut outbound,
    );
    match r {
        Err(mpc_node::errors::CryptographicError::UnknownParticipant(p)) => {
            assert_eq!(p.id, 99);
        }
        other => panic!("expected an unknown-participant error, got {:?}", other.is_ok()),
    }
    assert!(outbound.is_empty(), "nothing goes out for the bad action");
}

#[test]
fn broadcasts_never_address_the_sender() {
    let roster = roster_of(&[0, 1, 2, 3]);
    let me = Participant::new(2);
    let mut outbound: Vec<Outbound> = Vec::new();
    let r = apply_keygen_action(&roster, me, KeygenAction::SendMany(vec![7, 8]), &mut outbound);
    assert!(r.is_ok());
    let tos: Vec<u32> = outbound.iter().map(|o| o.to.id).collect();
    assert_eq!(tos, vec![0, 1, 3], "one message per participant but me");
    for o in &outbound {
        assert!(!o.encrypted, "broadcast steps go plain");
        match &o.message {
            MpcMessage::Generating(g) => assert_eq!(g.from.id, 2),
            _ => panic!("a keygen step travels as a generating message"),
        }
    }
}

#[test]
fn waiting_for_consensus_enters_running_at_the_matching_epoch() {
    let w = NodeState::WaitingForConsensus(WaitingForConsensusState {
        epoch: 7,
        participants: roster_of(&[0, 1]),
        threshold: 2,
        private_share: vec![9u8; 32],
        public_key: vec![3u8; 33],
    });
    let contract = ContractState::Running {
        epoch: 7,
        participants: roster_of(&[0, 1]),
        threshold: 2,
        public_key: vec![3u8; 33],
    };
    let st = advance(w, contract, &account_of(0), None).map_err(|(_, e)| e).unwrap();
    match st {
        NodeState::Running(run) => {
            assert_eq!(run.epoch, 7);
            assert_eq!(run.private_share, vec![9u8; 32]);
            assert_eq!(run.public_key, vec![3u8; 33]);
            assert_eq!(run.triple_manager.epoch, 7);
            assert_eq!(run.triple_manager.me.id, 0);
        }
        _ => panic!("a confirmed epoch enters the running state"),
    }
}

#[test]
fn advance_refuses_an_epoch_rollback_and_a_key_mismatch() {
    let make_w = || {
        NodeState::WaitingForConsensus(WaitingForConsensusState {
            epoch: 7,
            participants: roster_of(&[0, 1]),
            threshold: 2,
            private_share: vec![9u8; 32],
            public_key: vec![3u8; 33],
        })
    };
    let rollback = ContractState::Running {
        epoch: 6,
        participants: roster_of(&[0, 1]),
        threshold: 2,
        public_key: vec![3u8; 33],
    };
    let (st, e) = match advance(make_w(), rollback, &account_of(0), None) {
        Err(pair) => pair,
        Ok(_) => panic!("an epoch rollback must be refused"),
    };
    assert_eq!(e, mpc_node::consensus::ConsensusError::EpochRollback);
    assert!(matches!(st, NodeState::WaitingForConsensus(_)));

    let mismatch = ContractState::Running {
        epoch: 7,
        participants: roster_of(&[0, 1]),
        threshold: 2,
        public_key: vec![4u8; 33],
    };
    let (st, e) = match advance(make_w(), mismatch, &account_of(0), None) {
        Err(pair) => pair,
        Ok(_) => panic!("a key mismatch must be refused"),
    };
    assert_eq!(e, mpc_node::consensus::ConsensusError::MismatchedPublicKey);
    assert!(matches!(st, NodeState::WaitingForConsensus(_)));
}

#[test]
fn a_started_node_with_data_resumes_its_epoch() {
    let data = PersistentNodeData {
        epoch: 4,
        private_share: vec![1u8; 32],
        public_key: vec![2u8; 33],
    };
    let st = load_started(Some(data));
    let contract = ContractState::Running {
        epoch: 4,
        participants: roster_of(&[0, 1]),
        threshold: 2,
        public_key: vec![2u8; 33],
    };
    let st = advance(st, contract, &account_of(1), None).map_err(|(_, e)| e).unwrap();
    match st {
        NodeState::Running(run) => {
            assert_eq!(run.epoch, 4);
            assert_eq!(run.triple_manager.me.id, 1);
        }
        _ => panic!("matching durable data resumes the running state"),
    }
}

#[test]
fn tick_carries_a_quorum_from_candidates_to_running() {
    let n = 3u32;
    let initializing = || ContractState::Initializing {
        candidates: roster_of(&[0, 1, 2]),
        threshold: 3,
    };
    let mut states: Vec<NodeState> = Vec::new();
    let mut queues: Vec<MpcMessageQueue> = Vec::new();
    let mut inboxes: Vec<Vec<MpcMessage>> = Vec::new();
    for _ in 0..n {
        states.push(load_started(None));
        queues.push(MpcMessageQueue::new());
        inboxes.push(Vec::new());
    }
    // A tick without a contract observation changes nothing and sends
    // nothing.
    let st = std::mem::replace(&mut states[0], NodeState::Starting);
    let (st, outbound, fault) = mpc_node::protocol::tick(
        st,
        None,
        Vec::new(),
        &mut queues[0],
        Participant::new(0),
        &account_of(0),
        None,
    );
    assert!(outbound.is_empty());
    assert!(fault.is_none());
    assert!(matches!(st, NodeState::Started(_)));
    states[0] = st;

    // Drive everyone to a settled key under the initializing contract.
    let mut rounds = 0;
    loop {
        let done = states
            .iter()
            .all(|s| matches!(s, NodeState::WaitingForConsensus(_)));
        if done {
            break;
        }
        for i in 0..n as usize {
            let st = std::mem::replace(&mut states[i], NodeState::Starting);
            let inbound = std::mem::take(&mut inboxes[i]);
            let (st, outbound, _fault) = mpc_node::protocol::tick(
                st,
                Some(initializing()),
                inbound,
                &mut queues[i],
                Participant::new(i as u32),
                &account_of(i as u32),
                None,
            );
            for o in outbound {
                assert_ne!(o.to.id, i as u32, "nothing is ever sent to oneself");
                inboxes[o.to.id as usize].push(o.message);
            }
            states[i] = st;
        }
        rounds += 1;
        assert!(rounds < 1000, "key generation must settle");
    }
    let public_key = match &states[0] {
        NodeState::WaitingForConsensus(w) => w.public_key.clone(),
        _ => unreachable!(),
    };
    // The contract confirms epoch zero; the next tick enters Running.
    let running = || ContractState::Running {
        epoch: 0,
        participants: roster_of(&[0, 1, 2]),
        threshold: 3,
        public_key: public_key.clone(),
    };
    for i in 0..n as usize {
        let st = std::mem::replace(&mut states[i], NodeState::Starting);
        let inbound = std::mem::take(&mut inboxes[i]);
        let (st, outbound, fault) = mpc_node::protocol::tick(
            st,
            Some(running()),
            inbound,
            &mut queues[i],
            Participant::new(i as u32),
            &account_of(i as u32),
            None,
        );
        assert!(fault.is_none());
        for o in outbound {
            inboxes[o.to.id as usize].push(o.message);
        }
        match &st {
            NodeState::Running(run) => {
                assert_eq!(run.epoch, 0);
                assert_eq!(run.public_key, public_key);
                assert_eq!(run.triple_manager.epoch, 0);
                assert_eq!(run.triple_manager.me.id, i as u32);
            }
            _ => panic!("a confirmed epoch enters the running state"),
        }
        states[i] = st;
    }
}
