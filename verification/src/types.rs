use vstd::prelude::*;

verus! {

/// A participant in the protocol: an opaque small integer identifier,
/// totally ordered and unique within an epoch.
#[derive(Clone, Copy, PartialEq, Eq, Structural, Hash, Debug)]
pub struct Participant {
    pub id: u32,
}

impl Participant {
    pub fn new(id: u32) -> (r: Participant)
        ensures
            r.id == id,
    {
        Participant { id }
    }
}

/// The published coordinates of one participant: its account identifier,
/// the URL its node listens on, and its cipher and signing public keys.
#[derive(Clone, Debug)]
pub struct ParticipantInfo {
    pub account_id: String,
    pub url: String,
    pub cipher_pk: Vec<u8>,
    pub sign_pk: Vec<u8>,
}

/// An ordered mapping from `Participant` to `ParticipantInfo`.
///
/// Entries are kept sorted by ascending participant id, so the ordering is
/// stable and shared across all nodes of an epoch; deterministic triple
/// ownership selection depends on that.
#[derive(Clone, Debug)]
pub struct Participants {
    pub entries: Vec<(Participant, ParticipantInfo)>,
}

impl Participants {
    /// Entries sorted strictly by ascending id: stable order, no duplicates.
    pub open spec fn well_formed(self) -> bool {
        forall|i: int, j: int|
            0 <= i < j < self.entries@.len() ==> (#[trigger] self.entries@[i]).0.id < (
            #[trigger] self.entries@[j]).0.id
    }

    pub open spec fn spec_len(self) -> nat {
        self.entries@.len()
    }

    pub open spec fn spec_ids(self) -> Seq<Participant> {
        self.entries@.map_values(|e: (Participant, ParticipantInfo)| e.0)
    }

    pub open spec fn spec_contains(self, p: Participant) -> bool {
        exists|i: int| 0 <= i < self.entries@.len() && (#[trigger] self.entries@[i]).0 == p
    }

    pub fn new() -> (r: Participants)
        ensures
            r.entries@.len() == 0,
            r.well_formed(),
    {
        Participants { entries: Vec::new() }
    }

    pub fn len(&self) -> (r: usize)
        ensures
            r == self.spec_len(),
    {
        self.entries.len()
    }

    /// Append a participant with an id above every id already present,
    /// keeping the entries sorted.
    pub fn push(&mut self, p: Participant, info: ParticipantInfo)
        requires
            old(self).well_formed(),
            forall|i: int|
                0 <= i < old(self).entries@.len() ==> (#[trigger] old(self).entries@[i]).0.id
                    < p.id,
        ensures
            final(self).well_formed(),
            final(self).entries@ == old(self).entries@.push((p, info)),
    {
        self.entries.push((p, info));
    }

    pub fn contains(&self, p: Participant) -> (r: bool)
        ensures
            r == self.spec_contains(p),
    {
        let n = self.entries.len();
        let mut i: usize = 0;
        while i < n
            invariant
                0 <= i <= n,
                n == self.entries@.len(),
                forall|k: int| 0 <= k < i ==> (#[trigger] self.entries@[k]).0 != p,
            decreases n - i,
        {
            if self.entries[i].0.id == p.id {
                return true;
            }
            i = i + 1;
        }
        false
    }

    /// Roster lookup by participant.
    pub fn get(&self, p: Participant) -> (r: Option<&ParticipantInfo>)
        ensures
            match r {
                Some(info) => exists|i: int|
                    0 <= i < self.entries@.len() && (#[trigger] self.entries@[i]) == (p, *info),
                None => !self.spec_contains(p),
            },
    {
        let n = self.entries.len();
        let mut i: usize = 0;
        while i < n
            invariant
                0 <= i <= n,
                n == self.entries@.len(),
                forall|k: int| 0 <= k < i ==> (#[trigger] self.entries@[k]).0 != p,
            decreases n - i,
        {
            if self.entries[i].0.id == p.id {
                return Some(&self.entries[i].1);
            }
            i = i + 1;
        }
        None
    }

    /// The participants in roster order.
    pub fn ids(&self) -> (r: Vec<Participant>)
        ensures
            r@ == self.spec_ids(),
    {
        let n = self.entries.len();
        let mut out: Vec<Participant> = Vec::new();
        let mut i: usize = 0;
        while i < n
            invariant
                0 <= i <= n,
                n == self.entries@.len(),
                out@.len() == i,
                forall|k: int| 0 <= k < i ==> #[trigger] out@[k] == self.entries@[k].0,
            decreases n - i,
        {
            out.push(self.entries[i].0);
            i = i + 1;
        }
        proof {
            assert(out@ =~= self.spec_ids());
        }
        out
    }

    /// Whether a roster names an account.
    pub open spec fn spec_has_account(self, account_id: Seq<char>) -> bool {
        exists|i: int|
            0 <= i < self.entries@.len() && (#[trigger] self.entries@[i]).1.account_id@
                == account_id
    }

    /// Read-only lookup of a participant's info by account identifier.
    pub fn find_participant_info(&self, account_id: &String) -> (r: Option<&ParticipantInfo>)
        ensures
            match r {
                Some(info) => info.account_id@ == account_id@ && exists|i: int|
                    0 <= i < self.entries@.len() && (#[trigger] self.entries@[i]).1 == *info,
                None => !self.spec_has_account(account_id@),
            },
    {
        let n = self.entries.len();
        let mut i: usize = 0;
        while i < n
            invariant
                0 <= i <= n,
                n == self.entries@.len(),
                forall|k: int|
                    0 <= k < i ==> (#[trigger] self.entries@[k]).1.account_id@ != account_id@,
            decreases n - i,
        {
            if self.entries[i].1.account_id.eq(account_id) {
                return Some(&self.entries[i].1);
            }
            i = i + 1;
        }
        None
    }

    /// The participant whose info names an account.
    pub fn find_participant(&self, account_id: &String) -> (r: Option<Participant>)
        ensures
            match r {
                Some(p) => exists|i: int|
                    0 <= i < self.entries@.len() && (#[trigger] self.entries@[i]).0 == p && self
                        .entries@[i].1.account_id@ == account_id@,
                None => !self.spec_has_account(account_id@),
            },
    {
        let n = self.entries.len();
        let mut i: usize = 0;
        while i < n
            invariant
                0 <= i <= n,
                n == self.entries@.len(),
                forall|k: int|
                    0 <= k < i ==> (#[trigger] self.entries@[k]).1.account_id@ != account_id@,
            decreases n - i,
        {
            if self.entries[i].1.account_id.eq(account_id) {
                return Some(self.entries[i].0);
            }
            i = i + 1;
        }
        None
    }

    /// Whether two rosters name the same participants in the same order.
    pub fn same_ids(&self, other: &Participants) -> (r: bool)
        ensures
            r == (self.spec_ids() == other.spec_ids()),
    {
        let n = self.entries.len();
        if n != other.entries.len() {
            proof {
                assert(self.spec_ids().len() != other.spec_ids().len());
            }
            return false;
        }
        let mut i: usize = 0;
        while i < n
            invariant
                0 <= i <= n,
                n == self.entries@.len(),
                n == other.entries@.len(),
                forall|k: int|
                    0 <= k < i ==> (#[trigger] self.entries@[k]).0 == other.entries@[k].0,
            decreases n - i,
        {
            if self.entries[i].0.id != other.entries[i].0.id {
                proof {
                    assert(self.spec_ids()[i as int] != other.spec_ids()[i as int]);
                }
                return false;
            }
            i = i + 1;
        }
        proof {
            assert(self.spec_ids() =~= other.spec_ids());
        }
        true
    }
}

} // verus!
