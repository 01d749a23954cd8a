use vstd::prelude::*;
use crate::cryptography::{start_keygen_protocol, start_reshare_protocol};
use crate::errors::InitializationError;
use crate::state::{
    GeneratingState, JoiningState, NodeState, PersistentNodeData, ResharingState, RunningState,
    StartedState, WaitingForConsensusState,
};
use crate::triple::{Triple, TripleId, TripleManager};
use crate::types::Participants;

verus! {

/// The contract's declared view of the protocol.
pub enum ContractState {
    Initializing { candidates: Participants, threshold: usize },
    Running { epoch: u64, participants: Participants, threshold: usize, public_key: Vec<u8> },
    Resharing {
        old_epoch: u64,
        old_participants: Participants,
        new_participants: Participants,
        threshold: usize,
        public_key: Vec<u8>,
    },
}

/// Disagreements between the node and the contract that must not be papered
/// over; the node stays in its prior state when one is surfaced.
#[derive(Clone, Debug, PartialEq, Eq)]
pub enum ConsensusError {
    /// The contract reports an epoch behind what this node has already seen.
    EpochRollback,
    /// The contract reports a different public key than this node holds.
    MismatchedPublicKey,
    CaitSithInitializationError(InitializationError),
}

impl ConsensusError {
    /// The text this error describes itself with.
    pub open spec fn spec_describe(self) -> Seq<char> {
        match self {
            ConsensusError::EpochRollback => "contract epoch is behind this node"@,
            ConsensusError::MismatchedPublicKey => "contract public key does not match this node"@,
            ConsensusError::CaitSithInitializationError(e) => e.spec_describe(),
        }
    }

    /// A short description, for logs and HTTP error bodies.
    pub fn describe(&self) -> (r: String)
        ensures
            r@ == self.spec_describe(),
    {
        match self {
            ConsensusError::EpochRollback => {
                let mut out = String::new();
                out.push_str("contract epoch is behind this node");
                proof {
                    assert(out@ =~= self.spec_describe());
                }
                out
            },
            ConsensusError::MismatchedPublicKey => {
                let mut out = String::new();
                out.push_str("contract public key does not match this node");
                proof {
                    assert(out@ =~= self.spec_describe());
                }
                out
            },
            ConsensusError::CaitSithInitializationError(e) => e.describe(),
        }
    }
}

/// Whether two byte strings are equal.
pub fn bytes_eq(a: &Vec<u8>, b: &Vec<u8>) -> (r: bool)
    ensures
        r == (a@ == b@),
{
    if a.len() != b.len() {
        return false;
    }
    let n = a.len();
    let mut i: usize = 0;
    while i < n
        invariant
            0 <= i <= n,
            n == a@.len(),
            n == b@.len(),
            forall|k: int| 0 <= k < i ==> a@[k] == b@[k],
        decreases n - i,
    {
        if a[i] != b[i] {
            return false;
        }
        i = i + 1;
    }
    proof {
        assert(a@ =~= b@);
    }
    true
}

/// The first step out of Starting: disk has been read (by the caller, which
/// owns all storage), and the node now awaits the contract's direction.
pub fn load_started(data: Option<PersistentNodeData>) -> (r: NodeState)
    ensures
        r matches NodeState::Started(s) && s.0 == data,
{
    NodeState::Started(StartedState(data))
}


/// A manager freshly built for an epoch: empty pools, the given coordinates,
/// and this node's participant looked up in the roster by account.
pub open spec fn spec_fresh_manager(
    tm: TripleManager,
    roster: Participants,
    account: Seq<char>,
    epoch: u64,
    threshold: usize,
    stockpile: Option<usize>,
) -> bool {
    &&& tm.triples@ == Map::<TripleId, Triple>::empty()
    &&& tm.generators@.len() == 0
    &&& tm.mine@.len() == 0
    &&& tm.epoch == epoch
    &&& tm.threshold == threshold
    &&& tm.triple_stockpile == stockpile
    &&& tm.participants@ == roster.spec_ids()
    &&& exists|i: int|
        0 <= i < roster.entries@.len() && (#[trigger] roster.entries@[i]).0 == tm.me
            && roster.entries@[i].1.account_id@ == account
}

/// The outcome of a row that must start a resharing protocol: the resharing
/// state with the given coordinates, or — only because the outside protocol
/// declined to start — the input handed back beside that error.
pub open spec fn spec_reshare_outcome(
    state: NodeState,
    old_epoch: u64,
    old_participants: Participants,
    new_participants: Participants,
    threshold: usize,
    public_key: Vec<u8>,
    r: Result<NodeState, (NodeState, ConsensusError)>,
) -> bool {
    ||| (r matches Ok(ns) && (ns matches NodeState::Resharing(rs) && rs.old_epoch == old_epoch
        && rs.old_participants == old_participants && rs.new_participants == new_participants
        && rs.threshold == threshold && rs.public_key@ == public_key@))
    ||| (r matches Err((ns, e)) && ns == state && e is CaitSithInitializationError)
}

/// The outcome of a row that enters the running state: epoch, roster and
/// threshold from the contract, the node's own key material, a fresh manager.
pub open spec fn spec_running_outcome(
    epoch: u64,
    participants: Participants,
    threshold: usize,
    private_share: Vec<u8>,
    public_key: Vec<u8>,
    account: Seq<char>,
    stockpile: Option<usize>,
    r: Result<NodeState, (NodeState, ConsensusError)>,
) -> bool {
    r matches Ok(ns) && (ns matches NodeState::Running(run) && run.epoch == epoch
        && run.participants == participants && run.threshold == threshold && run.private_share
        == private_share && run.public_key@ == public_key@ && spec_fresh_manager(
        run.triple_manager,
        participants,
        account,
        epoch,
        threshold,
        stockpile,
    ))
}

/// What `advance` does, row by row of the transition table.  Where a row
/// starts an outside protocol, success is promised only as far as that
/// protocol's own acceptance goes: for key generation the conditions are
/// exact (a well-formed roster of at least two naming this node, threshold
/// within bounds); for resharing the protocol may also decline on grounds of
/// the old roster, so the row ends in the new state or in that error.
pub open spec fn spec_advance(
    state: NodeState,
    contract: ContractState,
    account: Seq<char>,
    stockpile: Option<usize>,
    r: Result<NodeState, (NodeState, ConsensusError)>,
) -> bool {
    match state {
        NodeState::Starting => true,
        NodeState::Started(started) => match started.0 {
            None => match contract {
                ContractState::Initializing { candidates, threshold } => {
                    if candidates.spec_has_account(account) {
                        if candidates.well_formed() && candidates.spec_len() >= 2 && threshold
                            <= candidates.spec_len() {
                            r matches Ok(ns) && (ns matches NodeState::Generating(g)
                                && g.participants == candidates && g.threshold == threshold)
                        } else {
                            ||| (r matches Ok(ns) && (ns matches NodeState::Generating(g)
                                && g.participants == candidates && g.threshold == threshold))
                            ||| (r matches Err((ns, e)) && ns == state
                                && e is CaitSithInitializationError)
                        }
                    } else {
                        r matches Ok(ns) && ns == state
                    }
                },
                ContractState::Running { participants, public_key, .. } => {
                    if participants.spec_has_account(account) {
                        r matches Ok(ns) && (ns matches NodeState::Joining(j) && j.participants
                            == participants && j.public_key == public_key)
                    } else {
                        r matches Ok(ns) && ns == state
                    }
                },
                ContractState::Resharing {
                    old_epoch,
                    old_participants,
                    new_participants,
                    threshold,
                    public_key,
                } => {
                    if new_participants.spec_has_account(account) {
                        spec_reshare_outcome(
                            state,
                            old_epoch,
                            old_participants,
                            new_participants,
                            threshold,
                            public_key,
                            r,
                        )
                    } else {
                        r matches Ok(ns) && ns == state
                    }
                },
            },
            Some(data) => match contract {
                ContractState::Initializing { candidates, threshold } => {
                    if data.epoch == 0 {
                        r matches Ok(ns) && (ns matches NodeState::WaitingForConsensus(w)
                            && w.epoch == 0 && w.participants == candidates && w.threshold
                            == threshold && w.private_share == data.private_share && w.public_key
                            == data.public_key)
                    } else {
                        r matches Ok(ns) && ns == state
                    }
                },
                ContractState::Running { epoch, participants, threshold, public_key } => {
                    if epoch < data.epoch {
                        r matches Err((ns, e)) && ns == state && e == ConsensusError::EpochRollback
                    } else if epoch == data.epoch {
                        if public_key@ != data.public_key@ {
                            r matches Err((ns, e)) && ns == state && e
                                == ConsensusError::MismatchedPublicKey
                        } else if participants.spec_has_account(account) {
                            spec_running_outcome(
                                epoch,
                                participants,
                                threshold,
                                data.private_share,
                                data.public_key,
                                account,
                                stockpile,
                                r,
                            )
                        } else {
                            r matches Ok(ns) && (ns matches NodeState::Joining(j) && j.participants
                                == participants && j.public_key == public_key)
                        }
                    } else {
                        r matches Ok(ns) && (ns matches NodeState::Joining(j) && j.participants
                            == participants && j.public_key == public_key)
                    }
                },
                ContractState::Resharing {
                    old_epoch,
                    old_participants,
                    new_participants,
                    threshold,
                    public_key,
                } => {
                    if old_epoch == data.epoch {
                        if public_key@ != data.public_key@ {
                            r matches Err((ns, e)) && ns == state && e
                                == ConsensusError::MismatchedPublicKey
                        } else if new_participants.spec_has_account(account) {
                            spec_reshare_outcome(
                                state,
                                old_epoch,
                                old_participants,
                                new_participants,
                                threshold,
                                public_key,
                                r,
                            )
                        } else {
                            r matches Ok(ns) && ns == state
                        }
                    } else {
                        r matches Ok(ns) && ns == state
                    }
                },
            },
        },
        NodeState::Generating(_) => r matches Ok(ns) && ns == state,
        NodeState::WaitingForConsensus(w) => match contract {
            ContractState::Initializing { .. } => r matches Ok(ns) && ns == state,
            ContractState::Running { epoch, participants, threshold, public_key } => {
                if epoch < w.epoch {
                    r matches Err((ns, e)) && ns == state && e == ConsensusError::EpochRollback
                } else if epoch == w.epoch {
                    if public_key@ != w.public_key@ {
                        r matches Err((ns, e)) && ns == state && e
                            == ConsensusError::MismatchedPublicKey
                    } else if participants.spec_has_account(account) {
                        spec_running_outcome(
                            epoch,
                            participants,
                            threshold,
                            w.private_share,
                            w.public_key,
                            account,
                            stockpile,
                            r,
                        )
                    } else {
                        r matches Ok(ns) && ns == state
                    }
                } else {
                    r matches Ok(ns) && ns == state
                }
            },
            ContractState::Resharing {
                old_epoch,
                old_participants,
                new_participants,
                threshold,
                public_key,
            } => {
                if old_epoch == w.epoch {
                    if public_key@ != w.public_key@ {
                        r matches Err((ns, e)) && ns == state && e
                            == ConsensusError::MismatchedPublicKey
                    } else if new_participants.spec_has_account(account) {
                        spec_reshare_outcome(
                            state,
                            old_epoch,
                            old_participants,
                            new_participants,
                            threshold,
                            w.public_key,
                            r,
                        )
                    } else {
                        r matches Ok(ns) && (ns matches NodeState::Joining(j) && j.participants
                            == new_participants && j.public_key == public_key)
                    }
                } else {
                    r matches Ok(ns) && ns == state
                }
            },
        },
        NodeState::Running(run) => match contract {
            ContractState::Initializing { .. } => r matches Ok(ns) && ns == state,
            ContractState::Running { epoch, participants, public_key, .. } => {
                if epoch < run.epoch {
                    r matches Err((ns, e)) && ns == state && e == ConsensusError::EpochRollback
                } else if epoch == run.epoch {
                    r matches Ok(ns) && ns == state
                } else {
                    r matches Ok(ns) && (ns matches NodeState::Joining(j) && j.participants
                        == participants && j.public_key == public_key)
                }
            },
            ContractState::Resharing {
                old_epoch,
                old_participants,
                new_participants,
                threshold,
                public_key,
            } => {
                if old_epoch < run.epoch {
                    r matches Err((ns, e)) && ns == state && e == ConsensusError::EpochRollback
                } else if old_epoch == run.epoch {
                    if public_key@ != run.public_key@ {
                        r matches Err((ns, e)) && ns == state && e
                            == ConsensusError::MismatchedPublicKey
                    } else if new_participants.spec_has_account(account) {
                        spec_reshare_outcome(
                            state,
                            old_epoch,
                            old_participants,
                            new_participants,
                            threshold,
                            run.public_key,
                            r,
                        )
                    } else {
                        r matches Ok(ns) && ns == state
                    }
                } else {
                    r matches Ok(ns) && ns == state
                }
            },
        },
        NodeState::Resharing(_) => r matches Ok(ns) && ns == state,
        NodeState::Joining(_) => match contract {
            ContractState::Initializing { .. } => r matches Ok(ns) && ns == state,
            ContractState::Running { participants, public_key, .. } => r matches Ok(ns) && (ns
                matches NodeState::Joining(j) && j.participants == participants && j.public_key
                == public_key),
            ContractState::Resharing {
                old_epoch,
                old_participants,
                new_participants,
                threshold,
                public_key,
            } => {
                if new_participants.spec_has_account(account) {
                    spec_reshare_outcome(
                        state,
                        old_epoch,
                        old_participants,
                        new_participants,
                        threshold,
                        public_key,
                        r,
                    )
                } else {
                    r matches Ok(ns) && ns == state
                }
            },
        },
    }
}

/// React to the contract's declared state.  The epoch never decreases, except
/// that a node which finds itself outside the roster moves to Joining and no
/// longer carries one.  Disagreements (epoch rollback, key mismatch, a
/// protocol that cannot start) hand the state back unchanged beside the
/// error, so the caller stays in its prior state and retries next tick.
pub fn advance(
    state: NodeState,
    contract: ContractState,
    my_account_id: &String,
    triple_stockpile: Option<usize>,
) -> (r: Result<NodeState, (NodeState, ConsensusError)>)
    requires
        !(state is Starting),
    ensures
        spec_advance(state, contract, my_account_id@, triple_stockpile, r),
        match r {
            Ok(ns) => {
                &&& !(ns is Starting)
                &&& !(ns is Joining) ==> ns.spec_epoch() >= state.spec_epoch()
                &&& (state matches NodeState::WaitingForConsensus(w) ==> (ns matches
                    NodeState::Running(run) ==> {
                        &&& contract matches ContractState::Running { epoch, .. } && run.epoch
                            == epoch && epoch == w.epoch
                        &&& run.private_share == w.private_share
                        &&& run.public_key == w.public_key
                    }))
                &&& (state matches NodeState::Running(run) ==> (ns matches NodeState::Resharing(rs)
                    ==> {
                        &&& rs.old_epoch == run.epoch
                        &&& rs.public_key == run.public_key
                    }))
                &&& (state matches NodeState::WaitingForConsensus(w) ==> (ns matches
                    NodeState::Resharing(rs) ==> {
                        &&& rs.old_epoch == w.epoch
                        &&& rs.public_key == w.public_key
                    }))
                &&& (state is Generating ==> (ns is Generating && ns == state))
                &&& (state is Resharing ==> (ns is Resharing && ns == state))
            },
            Err((ns, e)) => ns == state,
        },
{
    match state {
        NodeState::Starting => Ok(NodeState::Starting),
        NodeState::Started(started) => {
            match started.0 {
                None => match contract {
                    ContractState::Initializing { candidates, threshold } => {
                        match candidates.find_participant(my_account_id) {
                            Some(me) => {
                                let ids = candidates.ids();
                                proof {
                                    if candidates.well_formed() {
                                        assert forall|i: int, j: int|
                                            0 <= i < j < ids@.len() implies (#[trigger] ids@[i]).id
                                            != (#[trigger] ids@[j]).id by {
                                            assert(ids@[i] == candidates.entries@[i].0);
                                            assert(ids@[j] == candidates.entries@[j].0);
                                        }
                                    }
                                    let i = choose|i: int|
                                        0 <= i < candidates.entries@.len() && (
                                        #[trigger] candidates.entries@[i]).0 == me
                                            && candidates.entries@[i].1.account_id@
                                            == my_account_id@;
                                    assert(ids@[i] == me);
                                    assert(ids@.contains(me));
                                }
                                match start_keygen_protocol(&ids, me, threshold) {
                                    Ok(protocol) => Ok(NodeState::Generating(GeneratingState {
                                        participants: candidates,
                                        threshold,
                                        protocol,
                                    })),
                                    Err(e) => Err((
                                        NodeState::Started(StartedState(None)),
                                        ConsensusError::CaitSithInitializationError(e),
                                    )),
                                }
                            },
                            // Not a candidate: wait to be named.
                            None => Ok(NodeState::Started(StartedState(None))),
                        }
                    },
                    ContractState::Running { participants, public_key, .. } => {
                        if participants.find_participant(my_account_id).is_some() {
                            Ok(NodeState::Joining(JoiningState { participants, public_key }))
                        } else {
                            Ok(NodeState::Started(StartedState(None)))
                        }
                    },
                    ContractState::Resharing {
                        old_epoch,
                        old_participants,
                        new_participants,
                        threshold,
                        public_key,
                    } => {
                        // A fresh node named in the new roster joins the
                        // reshare without an old share.
                        match new_participants.find_participant(my_account_id) {
                            Some(me) => {
                                let old_ids = old_participants.ids();
                                let new_ids = new_participants.ids();
                                match start_reshare_protocol(
                                    &old_ids,
                                    threshold,
                                    &new_ids,
                                    threshold,
                                    me,
                                    None,
                                    &public_key,
                                ) {
                                    Ok(protocol) => Ok(NodeState::Resharing(ResharingState {
                                        old_epoch,
                                        old_participants,
                                        new_participants,
                                        threshold,
                                        public_key,
                                        protocol,
                                    })),
                                    Err(e) => Err((
                                        NodeState::Started(StartedState(None)),
                                        ConsensusError::CaitSithInitializationError(e),
                                    )),
                                }
                            },
                            None => Ok(NodeState::Started(StartedState(None))),
                        }
                    },
                },
                Some(data) => match contract {
                    ContractState::Initializing { candidates, threshold } => {
                        if data.epoch == 0 {
                            Ok(NodeState::WaitingForConsensus(WaitingForConsensusState {
                                epoch: 0,
                                participants: candidates,
                                threshold,
                                private_share: data.private_share,
                                public_key: data.public_key,
                            }))
                        } else {
                            Ok(NodeState::Started(StartedState(Some(data))))
                        }
                    },
                    ContractState::Running { epoch, participants, threshold, public_key } => {
                        if epoch < data.epoch {
                            Err((
                                NodeState::Started(StartedState(Some(data))),
                                ConsensusError::EpochRollback,
                            ))
                        } else if epoch == data.epoch {
                            if !bytes_eq(&public_key, &data.public_key) {
                                Err((
                                    NodeState::Started(StartedState(Some(data))),
                                    ConsensusError::MismatchedPublicKey,
                                ))
                            } else {
                                match participants.find_participant(my_account_id) {
                                    Some(me) => {
                                        let ids = participants.ids();
                                        let manager = TripleManager::new(
                                            ids,
                                            me,
                                            threshold,
                                            epoch,
                                            triple_stockpile,
                                        );
                                        Ok(NodeState::Running(RunningState {
                                            epoch,
                                            participants,
                                            threshold,
                                            private_share: data.private_share,
                                            public_key,
                                            triple_manager: manager,
                                        }))
                                    },
                                    None => Ok(NodeState::Joining(JoiningState {
                                        participants,
                                        public_key,
                                    })),
                                }
                            }
                        } else {
                            // The quorum moved on while this node was down;
                            // its share is stale and it must be reshared in.
                            Ok(NodeState::Joining(JoiningState { participants, public_key }))
                        }
                    },
                    ContractState::Resharing {
                        old_epoch,
                        old_participants,
                        new_participants,
                        threshold,
                        public_key,
                    } => {
                        if old_epoch == data.epoch {
                            if !bytes_eq(&public_key, &data.public_key) {
                                Err((
                                    NodeState::Started(StartedState(Some(data))),
                                    ConsensusError::MismatchedPublicKey,
                                ))
                            } else {
                                match new_participants.find_participant(my_account_id) {
                                    Some(me) => {
                                        let old_ids = old_participants.ids();
                                        let new_ids = new_participants.ids();
                                        match start_reshare_protocol(
                                            &old_ids,
                                            threshold,
                                            &new_ids,
                                            threshold,
                                            me,
                                            Some(&data.private_share),
                                            &public_key,
                                        ) {
                                            Ok(protocol) => Ok(NodeState::Resharing(
                                                ResharingState {
                                                    old_epoch,
                                                    old_participants,
                                                    new_participants,
                                                    threshold,
                                                    public_key,
                                                    protocol,
                                                },
                                            )),
                                            Err(e) => Err((
                                                NodeState::Started(StartedState(Some(data))),
                                                ConsensusError::CaitSithInitializationError(e),
                                            )),
                                        }
                                    },
                                    None => Ok(NodeState::Started(StartedState(Some(data)))),
                                }
                            }
                        } else {
                            Ok(NodeState::Started(StartedState(Some(data))))
                        }
                    },
                },
            }
        },
        NodeState::Generating(g) => Ok(NodeState::Generating(g)),
        NodeState::WaitingForConsensus(w) => match contract {
            ContractState::Initializing { .. } => Ok(NodeState::WaitingForConsensus(w)),
            ContractState::Running { epoch, participants, threshold, public_key } => {
                if epoch < w.epoch {
                    Err((NodeState::WaitingForConsensus(w), ConsensusError::EpochRollback))
                } else if epoch == w.epoch {
                    if !bytes_eq(&public_key, &w.public_key) {
                        Err((
                            NodeState::WaitingForConsensus(w),
                            ConsensusError::MismatchedPublicKey,
                        ))
                    } else {
                        // The contract's roster is authoritative at a
                        // matching epoch.
                        match participants.find_participant(my_account_id) {
                            Some(me) => {
                                let ids = participants.ids();
                                let manager = TripleManager::new(
                                    ids,
                                    me,
                                    threshold,
                                    epoch,
                                    triple_stockpile,
                                );
                                Ok(NodeState::Running(RunningState {
                                    epoch,
                                    participants,
                                    threshold,
                                    private_share: w.private_share,
                                    public_key: w.public_key,
                                    triple_manager: manager,
                                }))
                            },
                            None => Ok(NodeState::WaitingForConsensus(w)),
                        }
                    }
                } else {
                    Ok(NodeState::WaitingForConsensus(w))
                }
            },
            ContractState::Resharing {
                old_epoch,
                old_participants,
                new_participants,
                threshold,
                public_key,
            } => {
                if old_epoch == w.epoch {
                    if !bytes_eq(&public_key, &w.public_key) {
                        Err((
                            NodeState::WaitingForConsensus(w),
                            ConsensusError::MismatchedPublicKey,
                        ))
                    } else {
                        match new_participants.find_participant(my_account_id) {
                            Some(me) => {
                                let old_ids = old_participants.ids();
                                let new_ids = new_participants.ids();
                                match start_reshare_protocol(
                                    &old_ids,
                                    threshold,
                                    &new_ids,
                                    threshold,
                                    me,
                                    Some(&w.private_share),
                                    &public_key,
                                ) {
                                    Ok(protocol) => Ok(NodeState::Resharing(ResharingState {
                                        old_epoch,
                                        old_participants,
                                        new_participants,
                                        threshold,
                                        public_key: w.public_key,
                                        protocol,
                                    })),
                                    Err(e) => Err((
                                        NodeState::WaitingForConsensus(w),
                                        ConsensusError::CaitSithInitializationError(e),
                                    )),
                                }
                            },
                            // Not in the new roster: this node is leaving the
                            // quorum.
                            None => Ok(NodeState::Joining(JoiningState {
                                participants: new_participants,
                                public_key,
                            })),
                        }
                    }
                } else {
                    Ok(NodeState::WaitingForConsensus(w))
                }
            },
        },
        NodeState::Running(run) => match contract {
            ContractState::Initializing { .. } => Ok(NodeState::Running(run)),
            ContractState::Running { epoch, participants, public_key, .. } => {
                if epoch < run.epoch {
                    Err((NodeState::Running(run), ConsensusError::EpochRollback))
                } else if epoch == run.epoch {
                    Ok(NodeState::Running(run))
                } else {
                    // The quorum reached a later epoch without this node:
                    // its share is stale and it must be reshared in.
                    Ok(NodeState::Joining(JoiningState { participants, public_key }))
                }
            },
            ContractState::Resharing {
                old_epoch,
                old_participants,
                new_participants,
                threshold,
                public_key,
            } => {
                if old_epoch < run.epoch {
                    Err((NodeState::Running(run), ConsensusError::EpochRollback))
                } else if old_epoch == run.epoch {
                    if !bytes_eq(&public_key, &run.public_key) {
                        Err((NodeState::Running(run), ConsensusError::MismatchedPublicKey))
                    } else {
                        match new_participants.find_participant(my_account_id) {
                            Some(me) => {
                                let old_ids = old_participants.ids();
                                let new_ids = new_participants.ids();
                                match start_reshare_protocol(
                                    &old_ids,
                                    threshold,
                                    &new_ids,
                                    threshold,
                                    me,
                                    Some(&run.private_share),
                                    &public_key,
                                ) {
                                    Ok(protocol) => Ok(NodeState::Resharing(ResharingState {
                                        old_epoch,
                                        old_participants,
                                        new_participants,
                                        threshold,
                                        public_key: run.public_key,
                                        protocol,
                                    })),
                                    Err(e) => Err((
                                        NodeState::Running(run),
                                        ConsensusError::CaitSithInitializationError(e),
                                    )),
                                }
                            },
                            // Not in the new roster: keep running the old
                            // epoch until the contract confirms the new one.
                            None => Ok(NodeState::Running(run)),
                        }
                    }
                } else {
                    Ok(NodeState::Running(run))
                }
            },
        },
        NodeState::Resharing(rs) => Ok(NodeState::Resharing(rs)),
        NodeState::Joining(j) => match contract {
            ContractState::Initializing { .. } => Ok(NodeState::Joining(j)),
            ContractState::Running { participants, public_key, .. } => {
                // Refresh the observed roster; a share only arrives through a
                // resharing that includes this node.
                Ok(NodeState::Joining(JoiningState { participants, public_key }))
            },
            ContractState::Resharing {
                old_epoch,
                old_participants,
                new_participants,
                threshold,
                public_key,
            } => {
                match new_participants.find_participant(my_account_id) {
                    Some(me) => {
                        let old_ids = old_participants.ids();
                        let new_ids = new_participants.ids();
                        match start_reshare_protocol(
                            &old_ids,
                            threshold,
                            &new_ids,
                            threshold,
                            me,
                            None,
                            &public_key,
                        ) {
                            Ok(protocol) => Ok(NodeState::Resharing(ResharingState {
                                old_epoch,
                                old_participants,
                                new_participants,
                                threshold,
                                public_key,
                                protocol,
                            })),
                            Err(e) => Err((
                                NodeState::Joining(j),
                                ConsensusError::CaitSithInitializationError(e),
                            )),
                        }
                    },
                    None => Ok(NodeState::Joining(j)),
                }
            },
        },
    }
}

} // verus!
