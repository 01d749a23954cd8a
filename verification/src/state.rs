use vstd::prelude::*;
use crate::cryptography::{KeygenProtocol, ReshareProtocol};
use crate::errors::CryptographicError;
use crate::triple::TripleManager;
use crate::types::{Participant, ParticipantInfo, Participants};

verus! {

/// The only durable secret: the epoch it belongs to, this node's secp256k1
/// secret share (32 bytes), and the quorum's public key (SEC1 compressed,
/// 33 bytes).
#[derive(Clone, Debug, PartialEq, Eq)]
pub struct PersistentNodeData {
    pub epoch: u64,
    pub private_share: Vec<u8>,
    pub public_key: Vec<u8>,
}

/// Disk has been read; waiting for the contract's direction.
pub struct StartedState(pub Option<PersistentNodeData>);

/// Driving distributed key generation.
pub struct GeneratingState {
    pub participants: Participants,
    pub threshold: usize,
    pub protocol: KeygenProtocol,
}

/// Key generation or resharing finished locally; waiting for the contract to
/// confirm the epoch.
pub struct WaitingForConsensusState {
    pub epoch: u64,
    pub participants: Participants,
    pub threshold: usize,
    pub private_share: Vec<u8>,
    pub public_key: Vec<u8>,
}

/// Steady state: stockpiling triples and serving signature requests.
pub struct RunningState {
    pub epoch: u64,
    pub participants: Participants,
    pub threshold: usize,
    pub private_share: Vec<u8>,
    pub public_key: Vec<u8>,
    pub triple_manager: TripleManager,
}

/// Moving the same public key to a new participant set.
pub struct ResharingState {
    pub old_epoch: u64,
    pub old_participants: Participants,
    pub new_participants: Participants,
    pub threshold: usize,
    pub public_key: Vec<u8>,
    pub protocol: ReshareProtocol,
}

/// This node is not in the roster; it waits to be added by a resharing.
pub struct JoiningState {
    pub participants: Participants,
    pub public_key: Vec<u8>,
}

/// The node's actual state, advanced by `progress` (drive the in-flight
/// protocol) and `advance` (react to the contract's view).
pub enum NodeState {
    Starting,
    Started(StartedState),
    Generating(GeneratingState),
    WaitingForConsensus(WaitingForConsensusState),
    Running(RunningState),
    Resharing(ResharingState),
    Joining(JoiningState),
}

impl Default for NodeState {
    /// A node comes up in Starting, before its disk has been read.
    fn default() -> (r: NodeState)
        ensures
            r is Starting,
    {
        NodeState::Starting
    }
}

impl GeneratingState {
    pub fn fetch_participant(&self, p: Participant) -> (r: Result<
        &ParticipantInfo,
        CryptographicError,
    >)
        ensures
            r is Ok <==> self.participants.spec_contains(p),
            r is Err ==> r->Err_0 == CryptographicError::UnknownParticipant(p),
    {
        fetch_participant(p, &self.participants)
    }
}

impl WaitingForConsensusState {
    pub fn fetch_participant(&self, p: Participant) -> (r: Result<
        &ParticipantInfo,
        CryptographicError,
    >)
        ensures
            r is Ok <==> self.participants.spec_contains(p),
            r is Err ==> r->Err_0 == CryptographicError::UnknownParticipant(p),
    {
        fetch_participant(p, &self.participants)
    }
}

impl RunningState {
    pub fn fetch_participant(&self, p: Participant) -> (r: Result<
        &ParticipantInfo,
        CryptographicError,
    >)
        ensures
            r is Ok <==> self.participants.spec_contains(p),
            r is Err ==> r->Err_0 == CryptographicError::UnknownParticipant(p),
    {
        fetch_participant(p, &self.participants)
    }
}

impl ResharingState {
    /// Look a participant up in the new roster first, then in the old one:
    /// where both rosters name the participant, the new roster's info wins.
    pub fn fetch_participant(&self, p: Participant) -> (r: Result<
        &ParticipantInfo,
        CryptographicError,
    >)
        ensures
            r is Ok <==> (self.new_participants.spec_contains(p)
                || self.old_participants.spec_contains(p)),
            self.new_participants.spec_contains(p) ==> (r matches Ok(info) && exists|i: int|
                0 <= i < self.new_participants.entries@.len() && (
                #[trigger] self.new_participants.entries@[i]) == (p, *info)),
            r is Err ==> r->Err_0 == CryptographicError::UnknownParticipant(p),
    {
        match fetch_participant(p, &self.new_participants) {
            Ok(info) => Ok(info),
            Err(_) => fetch_participant(p, &self.old_participants),
        }
    }
}

impl JoiningState {
    pub fn fetch_participant(&self, p: Participant) -> (r: Result<
        &ParticipantInfo,
        CryptographicError,
    >)
        ensures
            r is Ok <==> self.participants.spec_contains(p),
            r is Err ==> r->Err_0 == CryptographicError::UnknownParticipant(p),
    {
        fetch_participant(p, &self.participants)
    }
}

impl NodeState {
    /// The epoch a state testifies to; states before the first key carry
    /// epoch zero.
    pub open spec fn spec_epoch(self) -> int {
        match self {
            NodeState::Starting => 0,
            NodeState::Started(s) => match s.0 {
                Some(d) => d.epoch as int,
                None => 0,
            },
            NodeState::Generating(_) => 0,
            NodeState::WaitingForConsensus(s) => s.epoch as int,
            NodeState::Running(s) => s.epoch as int,
            NodeState::Resharing(s) => s.old_epoch as int,
            NodeState::Joining(_) => 0,
        }
    }

    pub fn fetch_participant(&self, p: Participant) -> (r: Result<
        &ParticipantInfo,
        CryptographicError,
    >)
        ensures
            r is Err ==> r->Err_0 == CryptographicError::UnknownParticipant(p),
            match *self {
                NodeState::Generating(ref s) => r is Ok <==> s.participants.spec_contains(p),
                NodeState::WaitingForConsensus(ref s) => r is Ok <==> s.participants.spec_contains(
                    p,
                ),
                NodeState::Running(ref s) => r is Ok <==> s.participants.spec_contains(p),
                NodeState::Resharing(ref s) => r is Ok <==> (s.new_participants.spec_contains(p)
                    || s.old_participants.spec_contains(p)),
                NodeState::Joining(ref s) => r is Ok <==> s.participants.spec_contains(p),
                _ => r is Err,
            },
    {
        match self {
            NodeState::Running(state) => state.fetch_participant(p),
            NodeState::Generating(state) => state.fetch_participant(p),
            NodeState::WaitingForConsensus(state) => state.fetch_participant(p),
            NodeState::Resharing(state) => state.fetch_participant(p),
            NodeState::Joining(state) => state.fetch_participant(p),
            _ => Err(CryptographicError::UnknownParticipant(p)),
        }
    }

    /// Read-only roster lookup by account identifier.
    pub fn find_participant_info(&self, account_id: &String) -> (r: Option<&ParticipantInfo>)
        ensures
            match *self {
                NodeState::Starting => r is None,
                NodeState::Started(_) => r is None,
                NodeState::Generating(ref s) => (r is Some <==> s.participants.spec_has_account(
                    account_id@,
                )),
                NodeState::WaitingForConsensus(ref s) => (r is Some
                    <==> s.participants.spec_has_account(account_id@)),
                NodeState::Running(ref s) => (r is Some <==> s.participants.spec_has_account(
                    account_id@,
                )),
                NodeState::Resharing(ref s) => {
                    &&& (r is Some <==> (s.new_participants.spec_has_account(account_id@)
                        || s.old_participants.spec_has_account(account_id@)))
                    &&& s.new_participants.spec_has_account(account_id@) ==> (r matches Some(info)
                        && exists|i: int|
                        0 <= i < s.new_participants.entries@.len() && (
                        #[trigger] s.new_participants.entries@[i]).1 == *info)
                },
                NodeState::Joining(ref s) => (r is Some <==> s.participants.spec_has_account(
                    account_id@,
                )),
            },
            r is Some ==> r->0.account_id@ == account_id@,
    {
        match self {
            NodeState::Starting => None,
            NodeState::Started(_) => None,
            NodeState::Generating(state) => state.participants.find_participant_info(account_id),
            NodeState::WaitingForConsensus(state) => state.participants.find_participant_info(
                account_id,
            ),
            NodeState::Running(state) => state.participants.find_participant_info(account_id),
            NodeState::Resharing(state) => {
                match state.new_participants.find_participant_info(account_id) {
                    Some(info) => Some(info),
                    None => state.old_participants.find_participant_info(account_id),
                }
            },
            NodeState::Joining(state) => state.participants.find_participant_info(account_id),
        }
    }
}

/// Roster lookup shared by every state: the info the roster holds for a
/// known participant, or an UnknownParticipant error.
pub fn fetch_participant<'a>(p: Participant, participants: &'a Participants) -> (r: Result<
    &'a ParticipantInfo,
    CryptographicError,
>)
    ensures
        r is Ok <==> participants.spec_contains(p),
        r matches Ok(info) ==> exists|i: int|
            0 <= i < participants.entries@.len() && (#[trigger] participants.entries@[i]) == (
            p,
            *info,
        ),
        r is Err ==> r->Err_0 == CryptographicError::UnknownParticipant(p),
{
    match participants.get(p) {
        Some(info) => Ok(info),
        None => Err(CryptographicError::UnknownParticipant(p)),
    }
}

} // verus!
