use std::collections::HashMap;

use mpc_node::message::{handle, MpcMessage, MpcMessageQueue, TripleMessage};
use mpc_node::state::{NodeState, RunningState};
use mpc_node::triple::{apply_triple_action, calc_optimal_pile, TripleAction, TripleManager, TripleStep};
use mpc_node::types::{Participant, ParticipantInfo, Participants};

struct TestManagers {
    managers: Vec<TripleManager>,
}

impl TestManagers {
    fn new(number: u32) -> Self {
        let participants: Vec<Participant> = (0..number).map(Participant::new).collect();
        let managers = participants
            .iter()
            .map(|me| TripleManager::new(participants.clone(), *me, number as usize, 0, None))
            .collect();
        TestManagers { managers }
    }

    fn generate(&mut self, index: usize) {
        self.managers[index].generate().unwrap();
    }

    fn poke(&mut self, index: usize) -> bool {
        let mut quiet = true;
        let messages = self.managers[index].poke().unwrap();
        for (_public, participant, tm) in messages {
            quiet = false;
            let TripleMessage { id, from, data, .. } = tm;
            let manager = &mut self.managers[participant.id as usize];
            if let Some(protocol) = manager.get_or_generate(id).unwrap() {
                protocol.message(from, data);
            } else {
                println!("tried to write to completed mailbox {id}");
            }
        }
        quiet
    }

    fn poke_until_quiet(&mut self) {
        loop {
            let mut quiet = true;
            for i in 0..self.managers.len() {
                let poke = self.poke(i);
                quiet = quiet && poke;
            }
            if quiet {
                return;
            }
        }
    }
}

#[test]
fn triple_stockpile_small_quorum() {
    // A triple generation costs real multi-party compute that grows with the
    // quorum; three nodes keep the run inside the per-test time budget, while
    // the staggered starts and every assertion mirror the five-node
    // stockpile scenario.
    let mut tm = TestManagers::new(3);

    const M: usize = 2;
    const N: usize = M + 3;
    // Generate 5 triples
    for _ in 0..M {
        tm.generate(0);
    }
    tm.poke_until_quiet();
    tm.generate(1);
    tm.generate(2);
    tm.generate(0);

    tm.poke_until_quiet();

    let my_lens: Vec<usize> = tm.managers.iter().map(|m| m.my_len()).collect();
    let lens: Vec<usize> = tm.managers.iter().map(|m| m.len()).collect();

    assert_eq!(
        my_lens.iter().sum::<usize>(),
        N,
        "There should be {N} owned completed triples in total",
    );

    for l in lens {
        assert_eq!(l, N, "All nodes should have {N} completed triples")
    }

    for m in tm.managers.iter() {
        assert!(
            m.generators.is_empty(),
            "There are no triples still being generated"
        )
    }

    let mut triples: Vec<HashMap<u64, (u64, mpc_node::triple::TriplePublic)>> = tm
        .managers
        .iter()
        .map(|m| {
            m.triples
                .iter()
                .map(|(id, triple)| (*id, (triple.id, triple.public.clone())))
                .collect::<HashMap<_, _>>()
        })
        .collect();

    assert_ne!(
        triples.len(),
        1,
        "The number of triples is not 1 before deduping"
    );

    triples.dedup_by_key(|kv| kv.clone());

    assert_eq!(
        triples.len(),
        1,
        "All triple IDs and public parts are identical"
    )
}

fn participants_of(ids: &[u32]) -> Vec<Participant> {
    ids.iter().map(|i| Participant::new(*i)).collect()
}

fn stocked_pair() -> (TripleManager, TripleManager) {
    // A two-node quorum generates a small stockpile for real, as the larger
    // scenario does, so that take operations work on genuine triples.
    let mut tm = TestManagers::new(2);
    for _ in 0..6 {
        tm.generate(0);
    }
    tm.poke_until_quiet();
    let b = tm.managers.pop().unwrap();
    let a = tm.managers.pop().unwrap();
    (a, b)
}

#[test]
fn take_two_consumes_and_never_reuses() {
    let (a, b) = stocked_pair();
    // Some node owns at least two of the six triples.
    let mut manager = if a.my_len() >= 2 { a } else { b };
    assert!(manager.my_len() >= 2, "six triples cannot all belong to one node's peer twice over");
    let len_before = manager.len();
    let id0 = *manager.mine.front().unwrap();
    let id1 = *manager.mine.get(1).unwrap();

    let taken = manager.take_two(id0, id1);
    assert!(taken.is_ok());
    let (t0, t1) = taken.unwrap();
    assert_eq!(t0.id, id0);
    assert_eq!(t1.id, id1);
    assert_eq!(manager.len(), len_before - 2, "len() decreases by 2 after the first call");

    // The same ids can never come back.
    let again = manager.take_two(id0, id1);
    assert_eq!(again.err(), Some(id0));
    assert_eq!(manager.len(), len_before - 2, "len() unchanged after the second call");

    // A missing second id removes nothing and names the absentee.
    let id2 = *manager.mine.get(0).unwrap_or(&id0);
    let absent = 0xdead_beef_dead_beefu64;
    if manager.triples.contains_key(&id2) {
        assert_eq!(manager.take_two(id2, absent).err(), Some(absent));
        assert_eq!(manager.len(), len_before - 2);
    }
    assert_eq!(manager.take_two(absent, id0).err(), Some(absent));
}

#[test]
fn take_two_mine_pops_the_two_oldest() {
    let (a, b) = stocked_pair();
    let mut manager = if a.my_len() >= 2 { a } else { b };
    let id0 = *manager.mine.front().unwrap();
    let id1 = *manager.mine.get(1).unwrap();
    let owned_before = manager.my_len();
    let len_before = manager.len();

    let (t0, t1) = manager.take_two_mine().unwrap();
    assert_eq!((t0.id, t1.id), (id0, id1), "the two oldest owned ids go first");
    assert_eq!(manager.my_len(), owned_before - 2);
    assert_eq!(manager.len(), len_before - 2);

    // Once consumed through take_two, popped ids yield nothing again.
    if manager.my_len() < 2 {
        assert!(manager.take_two_mine().is_none());
    }
}

#[test]
fn calc_optimal_pile_solves_the_message_budget() {
    assert_eq!(calc_optimal_pile(22500, 5), 900);
    assert_eq!(calc_optimal_pile(22500, 2), 5625);
    assert_eq!(calc_optimal_pile(22500, 150), 1);
    assert_eq!(calc_optimal_pile(22500, 151), 0);
}

#[test]
fn generate_pile_respects_override_and_cap() {
    let participants = participants_of(&[0, 1, 2]);
    // Bandwidth-derived pile, capped at 100: 22500 / 25 = 900 -> 100.
    let mut manager = TripleManager::new(participants.clone(), Participant::new(0), 2, 0, None);
    manager.generate_pile_by_bandwidth(5).unwrap();
    assert_eq!(manager.generators.len(), 100);
    // Explicit stockpile override wins.
    let mut manager = TripleManager::new(participants.clone(), Participant::new(0), 2, 0, Some(3));
    manager.generate_pile_by_bandwidth(5).unwrap();
    assert_eq!(manager.generators.len(), 3);
    // Large quorums derive a small pile: 22500 / (150*150) = 1.
    let mut manager = TripleManager::new(participants.clone(), Participant::new(0), 2, 0, None);
    manager.generate_pile_by_bandwidth(150).unwrap();
    assert_eq!(manager.generators.len(), 1);
}

#[test]
fn generate_rejects_a_threshold_above_the_roster() {
    let participants = participants_of(&[0, 1]);
    let mut manager = TripleManager::new(participants, Participant::new(0), 3, 0, None);
    assert!(manager.generate().is_err());
    assert!(manager.generators.is_empty());
}

fn roster_of(ids: &[u32]) -> Participants {
    let mut roster = Participants::new();
    for i in ids {
        roster.push(
            Participant::new(*i),
            ParticipantInfo {
                account_id: format!("node{i}.near"),
                url: format!("http://127.0.0.1:300{i}"),
                cipher_pk: vec![*i as u8; 32],
                sign_pk: vec![*i as u8; 32],
            },
        );
    }
    roster
}

#[test]
fn running_drops_triple_messages_from_another_epoch() {
    let participants = participants_of(&[0, 1, 2]);
    let manager = TripleManager::new(participants.clone(), Participant::new(0), 2, 5, None);
    let state = NodeState::Running(RunningState {
        epoch: 5,
        participants: roster_of(&[0, 1, 2]),
        threshold: 2,
        private_share: vec![1u8; 32],
        public_key: vec![2u8; 33],
        triple_manager: manager,
    });
    let mut queue = MpcMessageQueue::new();
    queue.push(MpcMessage::Triple(TripleMessage {
        id: 42,
        epoch: 4,
        from: Participant::new(1),
        data: vec![1, 2, 3],
    }));
    let state = handle(state, &mut queue).map_err(|(_, e)| e).unwrap();
    assert!(queue.triple.is_empty(), "the triple queue is drained either way");
    match state {
        NodeState::Running(run) => {
            assert!(
                run.triple_manager.generators.is_empty(),
                "a stale-epoch message must not create a generator"
            );
            assert_eq!(run.triple_manager.len(), 0);
            assert_eq!(run.epoch, 5);
        }
        _ => panic!("the node must still be running"),
    }
}

#[test]
fn triple_broadcasts_fan_out_to_the_whole_roster() {
    let participants = participants_of(&[0, 1, 2]);
    let me = Participant::new(1);
    let mut messages = Vec::new();
    let step = apply_triple_action(
        &participants,
        me,
        7,
        42,
        TripleAction::SendMany(vec![9, 9]),
        &mut messages,
    );
    assert!(matches!(step, TripleStep::Continue));
    // One message per roster member, this node included, marked plaintext;
    // the steady-state driver filters self before sending.
    let tos: Vec<u32> = messages.iter().map(|m| m.1.id).collect();
    assert_eq!(tos, vec![0, 1, 2]);
    for (is_public, _to, tm) in &messages {
        assert!(*is_public);
        assert_eq!(tm.id, 42);
        assert_eq!(tm.epoch, 7);
        assert_eq!(tm.from.id, 1);
        assert_eq!(tm.data, vec![9, 9]);
    }
    // A private step queues exactly one message for the encrypted channel.
    let step = apply_triple_action(
        &participants,
        me,
        7,
        42,
        TripleAction::SendPrivate(Participant::new(2), vec![5]),
        &mut messages,
    );
    assert!(matches!(step, TripleStep::Continue));
    assert_eq!(messages.len(), 4);
    let last = messages.last().unwrap();
    assert!(!last.0, "a private step rides the encrypted channel");
    assert_eq!(last.1.id, 2);
}

#[test]
fn running_joins_a_generation_for_a_current_epoch_message() {
    let participants = participants_of(&[0, 1, 2]);
    let manager = TripleManager::new(participants.clone(), Participant::new(0), 2, 5, None);
    let state = NodeState::Running(RunningState {
        epoch: 5,
        participants: roster_of(&[0, 1, 2]),
        threshold: 2,
        private_share: vec![1u8; 32],
        public_key: vec![2u8; 33],
        triple_manager: manager,
    });
    let mut queue = MpcMessageQueue::new();
    queue.push(MpcMessage::Triple(TripleMessage {
        id: 42,
        epoch: 5,
        from: Participant::new(1),
        data: vec![1, 2, 3],
    }));
    let state = handle(state, &mut queue).map_err(|(_, e)| e).unwrap();
    match state {
        NodeState::Running(run) => {
            assert_eq!(run.triple_manager.generators.len(), 1);
            assert_eq!(run.triple_manager.generators[0].0, 42);
        }
        _ => panic!("the node must still be running"),
    }
}

#[test]
fn ownership_is_deterministic_and_unique() {
    let participants = participants_of(&[0, 1, 2, 3, 4]);
    let big_c = vec![0x02u8; 33];
    // Every node computes the same owner from the same bytes and roster.
    let first = mpc_node::triple::owner_of_big_c(&big_c, &participants);
    for _ in 0..3 {
        assert_eq!(
            mpc_node::triple::owner_of_big_c(&big_c, &participants),
            first
        );
    }
    // The owner is on the roster, and exactly one participant sees the
    // triple as its own.
    let owners: Vec<&Participant> = participants
        .iter()
        .filter(|p| mpc_node::triple::owner_of_big_c(&big_c, &participants) == **p)
        .collect();
    assert_eq!(owners.len(), 1);
}
