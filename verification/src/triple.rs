use vstd::prelude::*;
use std::collections::HashMap;
use std::collections::VecDeque;
use highway::HighwayHash;
use k256::elliptic_curve::group::GroupEncoding;
use crate::errors::{CryptographicError, InitializationError, ProtocolError};
use crate::types::Participant;
use crate::message::TripleMessage;
use cait_sith::protocol::Action as CsAction;
use cait_sith::protocol::InitializationError as CsInitError;
use cait_sith::protocol::Participant as CsParticipant;
use cait_sith::protocol::ProtocolError as CsProtocolError;

verus! {

broadcast use vstd::std_specs::hash::group_hash_axioms;

/// Maximum number of messages that should be relayed when generating a
/// stockpile of triples.
pub const DEFAULT_MAX_MESSAGES: usize = 22500;

/// The pile of triples generated by each node at once should not exceed this.
pub const DEFAULT_MAX_PILE: usize = 100;

/// Cap on the actions drained from one subprotocol in a single poke pass.  A
/// protocol still mid-stride when the cap is hit is simply retained and poked
/// again on the next tick, exactly as if it had asked to wait.
pub const MAX_ACTIONS_PER_POKE: usize = 65536;

/// Unique number used to identify a specific ongoing triple generation
/// protocol, so that incoming triple-generation messages can be routed.
pub type TripleId = u64;

/// What the 64-bit HighwayHash (default key) of a byte string is.  Every node
/// computes the same value from the same bytes, which is what deterministic
/// triple ownership rests on.
pub uninterp spec fn highway_hash64(data: Seq<u8>) -> u64;

/// Relies on highway's HighwayHasher (default key): a portable 64-bit hash
/// that is a function of the input bytes alone, stable across platforms,
/// processes and versions.
#[verifier::external_body]
fn hash64(data: &Vec<u8>) -> (r: u64)
    ensures
        r == highway_hash64(data@),
{
    highway::HighwayHasher::default().hash64(data)
}

/// Relies on rand::random: a fresh pseudorandom 64-bit identifier; nothing is
/// promised of its value.
#[verifier::external_body]
fn random_triple_id() -> u64 {
    rand::random()
}

/// A share of one triple, held for the later presignature and signature
/// protocols.  The scalar contents are opaque here.
#[verifier::external_body]
pub struct TripleShare {
    inner: cait_sith::triples::TripleShare<k256::Secp256k1>,
}

/// Carries the public part of a completed triple as cait-sith returned it,
/// until it is converted to plain bytes.
#[verifier::external_body]
struct TriplePubHolder {
    inner: cait_sith::triples::TriplePub<k256::Secp256k1>,
}

impl TriplePubHolder {
    /// Relies on GroupEncoding::to_bytes for the three commitments of a
    /// cait_sith::triples::TriplePub: the SEC1 compressed encoding, 33 bytes
    /// on Secp256k1.  Participants and threshold move over as they stand.
    #[verifier::external_body]
    fn to_public(self) -> (r: TriplePublic)
        ensures
            r.big_a@.len() == 33,
            r.big_b@.len() == 33,
            r.big_c@.len() == 33,
    {
        let participants: Vec<Participant> =
            self.inner.participants.iter().map(|q| Participant { id: u32::from(*q) }).collect();
        TriplePublic {
            big_a: self.inner.big_a.to_bytes().to_vec(),
            big_b: self.inner.big_b.to_bytes().to_vec(),
            big_c: self.inner.big_c.to_bytes().to_vec(),
            participants,
            threshold: self.inner.threshold,
        }
    }
}

/// The public part of a completed triple, as plain bytes: the SEC1-compressed
/// encodings of the three commitments, plus who generated it and under which
/// threshold.
#[derive(Clone, Debug, PartialEq, Eq)]
pub struct TriplePublic {
    pub big_a: Vec<u8>,
    pub big_b: Vec<u8>,
    pub big_c: Vec<u8>,
    pub participants: Vec<Participant>,
    pub threshold: usize,
}

/// A completed triple.
pub struct Triple {
    pub id: TripleId,
    pub share: TripleShare,
    pub public: TriplePublic,
}

/// One step a subprotocol asks of its driver.
pub enum TripleAction {
    Wait,
    SendMany(Vec<u8>),
    SendPrivate(Participant, Vec<u8>),
    Return(TripleShare, TriplePublic),
}

/// A handle to an in-flight triple-generation subprotocol of cait-sith.  The
/// concrete protocol type is an unnameable `impl Protocol`, so the handle is
/// held behind an opaque box.
#[verifier::external_body]
pub struct TripleProtocol {
    inner: Box<
        dyn cait_sith::protocol::Protocol<
            Output = cait_sith::triples::TripleGenerationOutput<k256::Secp256k1>,
        > + Send,
    >,
}

/// No two participants share an identifier.
pub open spec fn distinct_participants(ps: Seq<Participant>) -> bool {
    forall|i: int, j: int| 0 <= i < j < ps.len() ==> (#[trigger] ps[i]).id != (#[trigger] ps[j]).id
}

/// Relies on cait_sith::triples::generate_triple over Secp256k1: it hands
/// back a protocol when there are at least two participants, no duplicates
/// among them, and the threshold is at most their number; it returns a
/// BadParameters error exactly otherwise.  (Participant identifiers map
/// one-to-one onto cait-sith participants, so distinctness carries over.)
#[verifier::external_body]
fn start_triple_protocol(
    participants: &Vec<Participant>,
    me: Participant,
    threshold: usize,
) -> (r: Result<TripleProtocol, InitializationError>)
    ensures
        r is Ok <==> (participants@.len() >= 2 && threshold <= participants@.len()
            && distinct_participants(participants@)),
{
    let ps: Vec<CsParticipant> = participants.iter().map(|p| CsParticipant::from(p.id)).collect();
    let me = CsParticipant::from(me.id);
    match cait_sith::triples::generate_triple::<k256::Secp256k1>(&ps, me, threshold) {
        Ok(protocol) => Ok(TripleProtocol { inner: Box::new(protocol) }),
        Err(CsInitError::BadParameters(s)) => Err(InitializationError::BadParameters(s)),
    }
}

impl TripleProtocol {
    /// Relies on cait-sith's Protocol::poke; which action comes back is up to
    /// the protocol and is not constrained here.  A returned triple's public
    /// part is converted to plain bytes.
    #[verifier::external_body]
    pub fn poke(&mut self) -> (r: Result<TripleAction, ProtocolError>) {
        match self.inner.poke() {
            Ok(CsAction::Wait) => Ok(TripleAction::Wait),
            Ok(CsAction::SendMany(d)) => Ok(TripleAction::SendMany(d)),
            Ok(CsAction::SendPrivate(p, d)) => Ok(TripleAction::SendPrivate(Participant { id: u32::from(p) }, d)),
            Ok(CsAction::Return(o)) => Ok(TripleAction::Return(TripleShare { inner: o.0 }, TriplePubHolder { inner: o.1 }.to_public())),
            Err(CsProtocolError::AssertionFailed(s)) => Err(ProtocolError::AssertionFailed(s)),
            Err(CsProtocolError::Other(e)) => Err(ProtocolError::Other(format!("{}", e))),
        }
    }

    /// Relies on cait-sith's Protocol::message: informs the protocol of a new
    /// message from a peer.
    #[verifier::external_body]
    pub fn message(&mut self, from: Participant, data: Vec<u8>) {
        self.inner.message(CsParticipant::from(from.id), data);
    }
}

/// What one translated triple-generation step means for the manager's loop.
pub enum TripleStep {
    Continue,
    Wait,
    Completed(TripleShare, TriplePublic),
}

/// Translate one triple-generation action into tagged messages.  A broadcast
/// queues exactly one message per roster member, this node included — the
/// steady-state driver filters self at send time — in roster order, marked
/// for the plaintext channel; a private step queues exactly one message
/// marked for the encrypted channel.  Waiting and completion queue nothing.
pub fn apply_triple_action(
    participants: &Vec<Participant>,
    me: Participant,
    epoch: u64,
    id: TripleId,
    action: TripleAction,
    messages: &mut Vec<(bool, Participant, TripleMessage)>,
) -> (r: TripleStep)
    ensures
        final(messages)@.len() >= old(messages)@.len(),
        final(messages)@.subrange(0, old(messages)@.len() as int) == old(messages)@,
        forall|k: int|
            old(messages)@.len() <= k < final(messages)@.len() ==> {
                let m = #[trigger] final(messages)@[k];
                &&& m.2.id == id
                &&& m.2.epoch == epoch
                &&& m.2.from == me
            },
        match action {
            TripleAction::Wait => r is Wait && final(messages)@ == old(messages)@,
            TripleAction::SendMany(data) => {
                &&& r is Continue
                &&& final(messages)@.len() == old(messages)@.len() + participants@.len()
                &&& forall|k: int|
                    old(messages)@.len() <= k < final(messages)@.len() ==> {
                        let m = #[trigger] final(messages)@[k];
                        &&& m.0
                        &&& m.1 == participants@[k - old(messages)@.len()]
                        &&& m.2.data@ == data@
                    }
            },
            TripleAction::SendPrivate(to, data) => {
                &&& r is Continue
                &&& final(messages)@.len() == old(messages)@.len() + 1
                &&& !final(messages)@.last().0
                &&& final(messages)@.last().1 == to
                &&& final(messages)@.last().2.data@ == data@
            },
            TripleAction::Return(share, public) => r == TripleStep::Completed(share, public)
                && final(messages)@ == old(messages)@,
        },
{
    match action {
        TripleAction::Wait => TripleStep::Wait,
        TripleAction::SendMany(data) => {
            let np = participants.len();
            let ghost base = messages@.len() as int;
            let mut pi: usize = 0;
            while pi < np
                invariant
                    0 <= pi <= np,
                    np == participants@.len(),
                    base == old(messages)@.len(),
                    messages@.len() == base + pi,
                    messages@.subrange(0, base) == old(messages)@,
                    forall|k: int|
                        base <= k < messages@.len() ==> {
                            let m = #[trigger] messages@[k];
                            &&& m.0
                            &&& m.1 == participants@[k - base]
                            &&& m.2.id == id
                            &&& m.2.epoch == epoch
                            &&& m.2.from == me
                            &&& m.2.data@ == data@
                        },
                decreases np - pi,
            {
                let ghost prev = messages@;
                let msg = TripleMessage { id, epoch, from: me, data: data.clone() };
                messages.push((true, participants[pi], msg));
                proof {
                    assert(messages@.subrange(0, base) =~= prev.subrange(0, base));
                }
                pi = pi + 1;
            }
            TripleStep::Continue
        },
        TripleAction::SendPrivate(to, data) => {
            let msg = TripleMessage { id, epoch, from: me, data };
            messages.push((false, to, msg));
            proof {
                assert(messages@.subrange(0, old(messages)@.len() as int) =~= old(messages)@);
            }
            TripleStep::Continue
        },
        TripleAction::Return(share, public) => TripleStep::Completed(share, public),
    }
}

/// The index a completed triple's owner is found at: the stable 64-bit hash
/// of the big_c commitment bytes, reduced modulo the roster size.
pub open spec fn spec_owner_index(big_c: Seq<u8>, n: nat) -> int
    recommends
        n > 0,
{
    (highway_hash64(big_c) as int) % (n as int)
}

/// The participant a completed triple belongs to.
pub open spec fn spec_owner(big_c: Seq<u8>, ps: Seq<Participant>) -> Participant
    recommends
        ps.len() > 0,
{
    ps[spec_owner_index(big_c, ps.len())]
}

/// Whether this node owns a completed triple with the given big_c bytes.
pub open spec fn spec_is_mine(big_c: Seq<u8>, ps: Seq<Participant>, me: Participant) -> bool
    recommends
        ps.len() > 0,
{
    spec_owner(big_c, ps) == me
}

/// Compute the owner of a completed triple from the byte encoding of its
/// big_c commitment.  Every node computes the same owner from the same bytes
/// and the same roster.
pub fn owner_of_big_c(big_c: &Vec<u8>, participants: &Vec<Participant>) -> (r: Participant)
    requires
        participants@.len() > 0,
    ensures
        r == spec_owner(big_c@, participants@),
{
    let h = hash64(big_c);
    let idx = h % (participants.len() as u64);
    participants[idx as usize]
}

/// Every completed triple has exactly one owner: the owner is on the roster,
/// and among distinct participants precisely one of them sees the triple as
/// its own.  Summed over the quorum, each completed triple is therefore
/// counted exactly once.
pub proof fn lemma_owner_unique(big_c: Seq<u8>, ps: Seq<Participant>)
    requires
        ps.len() > 0,
        distinct_participants(ps),
    ensures
        ps.contains(spec_owner(big_c, ps)),
        forall|i: int|
            0 <= i < ps.len() ==> (spec_is_mine(big_c, ps, ps[i]) <==> i == spec_owner_index(
                big_c,
                ps.len(),
            )),
        Set::new(|p: Participant| ps.contains(p) && spec_is_mine(big_c, ps, p)).len() == 1,
{
    let k = spec_owner_index(big_c, ps.len());
    assert(0 <= k < ps.len());
    assert(ps[k] == spec_owner(big_c, ps));
    assert(ps.contains(spec_owner(big_c, ps)));
    assert forall|i: int| 0 <= i < ps.len() implies (spec_is_mine(big_c, ps, ps[i]) <==> i
        == k) by {
        if i != k {
            assert(ps[i].id != ps[k].id);
        }
    }
    let owners = Set::new(|p: Participant| ps.contains(p) && spec_is_mine(big_c, ps, p));
    assert forall|p: Participant| owners.contains(p) implies p == ps[k] by {
        let i = choose|i: int| 0 <= i < ps.len() && ps[i] == p;
        assert(spec_is_mine(big_c, ps, ps[i]));
    }
    assert(owners =~= Set::empty().insert(ps[k]));
    assert(owners.len() == 1);
}

/// One step of triple consumption: `taken` ids were all present before, and
/// afterwards exactly those ids are gone.
pub open spec fn takes_only(
    pre: Map<TripleId, Triple>,
    post: Map<TripleId, Triple>,
    taken: Set<TripleId>,
) -> bool {
    &&& forall|id: TripleId| taken.contains(id) ==> pre.contains_key(id)
    &&& post == pre.remove_keys(taken)
}

/// Triples are never reused: once a successful `take_two(a, b)` has removed
/// both ids, no later chain of take operations (each of which only removes
/// triples that are present) returns or still holds a triple with id `a` or
/// `b`.  `maps` are the successive triple pools starting right after the
/// successful take; `taken[i]` are the ids the `i`-th later operation took.
pub proof fn lemma_take_two_non_reuse(
    a: TripleId,
    b: TripleId,
    maps: Seq<Map<TripleId, Triple>>,
    taken: Seq<Set<TripleId>>,
)
    requires
        maps.len() >= 1,
        !maps[0].contains_key(a),
        !maps[0].contains_key(b),
        taken.len() == maps.len() - 1,
        forall|i: int| 0 <= i < taken.len() ==> takes_only(maps[i], maps[i + 1], #[trigger] taken[i]),
    ensures
        forall|i: int| 0 <= i < taken.len() ==> !(#[trigger] taken[i]).contains(a) && !taken[i].contains(b),
        forall|i: int|
            0 <= i < maps.len() ==> !(#[trigger] maps[i]).contains_key(a) && !maps[i].contains_key(
                b,
            ),
    decreases maps.len(),
{
    if maps.len() > 1 {
        assert(takes_only(maps[0], maps[1], taken[0]));
        assert(!taken[0].contains(a) && !taken[0].contains(b));
        assert(!maps[1].contains_key(a) && !maps[1].contains_key(b));
        lemma_take_two_non_reuse(a, b, maps.skip(1), taken.skip(1));
        assert forall|i: int| 0 <= i < taken.len() implies !(#[trigger] taken[i]).contains(a) && !taken[i].contains(b) by {
            if i > 0 {
                assert(taken[i] == taken.skip(1)[i - 1]);
            }
        }
        assert forall|i: int| 0 <= i < maps.len() implies !(#[trigger] maps[i]).contains_key(a)
            && !maps[i].contains_key(b) by {
            if i > 0 {
                assert(maps[i] == maps.skip(1)[i - 1]);
            }
        }
    }
}

/// Abstracts how triples are generated: new triples can be requested, and
/// completed ones taken, while a pool of generation subprotocols runs in the
/// background.
pub struct TripleManager {
    /// Completed, unspent triples.
    pub triples: HashMap<TripleId, Triple>,
    /// Ongoing triple generation protocols, in the order they were started.
    pub generators: Vec<(TripleId, TripleProtocol)>,
    /// Ids of completed triples this node owns, oldest first.
    pub mine: VecDeque<TripleId>,
    pub participants: Vec<Participant>,
    pub me: Participant,
    pub threshold: usize,
    pub epoch: u64,
    pub triple_stockpile: Option<usize>,
}

impl TripleManager {
    /// The ids of the in-flight generation protocols, in order.
    pub open spec fn gen_ids(self) -> Seq<TripleId> {
        self.generators@.map_values(|e: (TripleId, TripleProtocol)| e.0)
    }

    /// Every pooled triple is stored under its own id.
    pub open spec fn triples_wf(self) -> bool {
        forall|id: TripleId| #[trigger]
            self.triples@.contains_key(id) ==> self.triples@[id].id == id
    }

    /// No two in-flight protocols share an id.
    pub open spec fn gens_unique(self) -> bool {
        forall|i: int, j: int|
            0 <= i < j < self.generators@.len() ==> (#[trigger] self.generators@[i]).0 != (
            #[trigger] self.generators@[j]).0
    }

    /// The configuration under which starting a new protocol succeeds.
    pub open spec fn can_initiate(self) -> bool {
        &&& self.participants@.len() >= 2
        &&& self.threshold <= self.participants@.len()
        &&& distinct_participants(self.participants@)
    }

    /// The fixed configuration of a manager: everything but the pools.
    pub open spec fn same_config(self, other: TripleManager) -> bool {
        &&& self.participants == other.participants
        &&& self.me == other.me
        &&& self.threshold == other.threshold
        &&& self.epoch == other.epoch
        &&& self.triple_stockpile == other.triple_stockpile
    }

    pub fn new(
        participants: Vec<Participant>,
        me: Participant,
        threshold: usize,
        epoch: u64,
        triple_stockpile: Option<usize>,
    ) -> (r: TripleManager)
        ensures
            r.triples@ == Map::<TripleId, Triple>::empty(),
            r.generators@.len() == 0,
            r.mine@.len() == 0,
            r.participants == participants,
            r.me == me,
            r.threshold == threshold,
            r.epoch == epoch,
            r.triple_stockpile == triple_stockpile,
            r.gens_unique(),
            r.triples_wf(),
    {
        TripleManager {
            triples: HashMap::new(),
            generators: Vec::new(),
            mine: VecDeque::new(),
            participants,
            me,
            threshold,
            epoch,
            triple_stockpile,
        }
    }

    /// The number of unspent triples available in the manager.
    pub fn len(&self) -> (r: usize)
        ensures
            r == self.triples@.len(),
    {
        self.triples.len()
    }

    /// The number of unspent triples assigned to this node.
    pub fn my_len(&self) -> (r: usize)
        ensures
            r == self.mine@.len(),
    {
        self.mine.len()
    }

    /// The number of unspent triples the manager will hold once all ongoing
    /// generation protocols complete.
    pub fn potential_len(&self) -> (r: usize)
        requires
            self.triples@.len() + self.generators@.len() <= usize::MAX,
        ensures
            r == self.triples@.len() + self.generators@.len(),
    {
        self.len() + self.generators.len()
    }

    /// Start a new Beaver triple generation protocol under a fresh random id:
    /// on success the drawn id is appended to the in-flight pool, unless the
    /// draw collided with an id already in flight, in which case the protocol
    /// already running is kept and nothing changes.  Fails exactly when the
    /// configuration cannot start a protocol, and then changes nothing.
    pub fn generate(&mut self) -> (r: Result<(), InitializationError>)
        ensures
            final(self).same_config(*old(self)),
            final(self).triples == old(self).triples,
            final(self).mine == old(self).mine,
            match r {
                Ok(()) => {
                    &&& old(self).can_initiate()
                    &&& exists|id: TripleId|
                        {
                            ||| (!old(self).gen_ids().contains(id) && final(self).gen_ids() == old(
                                self,
                            ).gen_ids().push(id))
                            ||| (old(self).gen_ids().contains(id) && final(self).generators == old(
                                self,
                            ).generators)
                        }
                    &&& old(self).gens_unique() ==> final(self).gens_unique()
                },
                Err(_) => {
                    &&& !old(self).can_initiate()
                    &&& final(self).generators == old(self).generators
                },
            },
    {
        let id = random_triple_id();
        let protocol = match start_triple_protocol(&self.participants, self.me, self.threshold) {
            Ok(p) => p,
            Err(e) => {
                return Err(e);
            },
        };
        // A colliding id would leave two protocols answering to one id; the
        // one already in flight is kept and the fresh protocol is dropped.
        let n = self.generators.len();
        let mut i: usize = 0;
        let mut fresh = true;
        while i < n
            invariant
                0 <= i <= n,
                n == self.generators@.len(),
                fresh <==> forall|k: int| 0 <= k < i ==> (#[trigger] self.generators@[k]).0 != id,
            decreases n - i,
        {
            if self.generators[i].0 == id {
                fresh = false;
            }
            i = i + 1;
        }
        if fresh {
            self.generators.push((id, protocol));
            proof {
                assert(final(self).gen_ids() =~= old(self).gen_ids().push(id));
                assert(!old(self).gen_ids().contains(id)) by {
                    if old(self).gen_ids().contains(id) {
                        let k = choose|k: int|
                            0 <= k < old(self).gen_ids().len() && old(self).gen_ids()[k] == id;
                        assert(old(self).generators@[k].0 == id);
                    }
                }
            }
        } else {
            proof {
                let k = choose|k: int|
                    0 <= k < self.generators@.len() && (#[trigger] self.generators@[k]).0 == id;
                assert(old(self).gen_ids()[k] == id);
                assert(old(self).gen_ids().contains(id));
            }
        }
        Ok(())
    }

    /// The pile each node should generate so that the quorum's total message
    /// volume stays bounded: an explicit stockpile override, or the
    /// bandwidth-derived pile capped at the default maximum.
    pub open spec fn spec_pile(self, nodes: usize) -> int {
        match self.triple_stockpile {
            Some(p) => p as int,
            None => {
                let derived = (DEFAULT_MAX_MESSAGES as int) / ((nodes as int) * (nodes as int));
                if derived < (DEFAULT_MAX_PILE as int) {
                    derived
                } else {
                    DEFAULT_MAX_PILE as int
                }
            },
        }
    }

    /// Generate a whole pile of triples, sized by the quorum's bandwidth: on
    /// success the pile's worth of new protocols was started, every protocol
    /// already in flight is kept in place, and each appended id is one that
    /// was not in flight before — the pool grows by exactly the pile, less
    /// only the draws that collided with ids already in flight.
    pub fn generate_pile_by_bandwidth(&mut self, nodes: usize) -> (r: Result<
        (),
        InitializationError,
    >)
        requires
            old(self).triple_stockpile is None ==> (nodes >= 1 && nodes * nodes <= usize::MAX),
        ensures
            final(self).same_config(*old(self)),
            final(self).triples == old(self).triples,
            final(self).mine == old(self).mine,
            old(self).gens_unique() ==> final(self).gens_unique(),
            final(self).gen_ids().subrange(0, old(self).gen_ids().len() as int) == old(
                self,
            ).gen_ids(),
            forall|k: int|
                old(self).gen_ids().len() <= k < final(self).gen_ids().len() ==> !old(
                    self,
                ).gen_ids().contains(#[trigger] final(self).gen_ids()[k]),
            match r {
                Ok(()) => {
                    &&& old(self).spec_pile(nodes) > 0 ==> old(self).can_initiate()
                    &&& old(self).gen_ids().len() <= final(self).gen_ids().len() <= old(
                        self,
                    ).gen_ids().len() + old(self).spec_pile(nodes)
                },
                Err(_) => !old(self).can_initiate(),
            },
    {
        let pile: usize = match self.triple_stockpile {
            Some(triple_stockpile) => triple_stockpile,
            None => {
                let derived = calc_optimal_pile(DEFAULT_MAX_MESSAGES, nodes);
                if derived < DEFAULT_MAX_PILE {
                    derived
                } else {
                    DEFAULT_MAX_PILE
                }
            },
        };
        let ghost pre = *self;
        let mut k: usize = 0;
        while k < pile
            invariant
                pre == *old(self),
                0 <= k <= pile,
                pile == pre.spec_pile(nodes),
                self.same_config(pre),
                self.triples == pre.triples,
                self.mine == pre.mine,
                pre.gens_unique() ==> self.gens_unique(),
                pre.gen_ids().len() <= self.gen_ids().len() <= pre.gen_ids().len() + k,
                self.gen_ids().subrange(0, pre.gen_ids().len() as int) == pre.gen_ids(),
                forall|j: int|
                    pre.gen_ids().len() <= j < self.gen_ids().len() ==> !pre.gen_ids().contains(
                        #[trigger] self.gen_ids()[j],
                    ),
                k > 0 ==> pre.can_initiate(),
                self.can_initiate() == pre.can_initiate(),
            decreases pile - k,
        {
            let ghost before = self.gen_ids();
            match self.generate() {
                Ok(()) => {},
                Err(e) => {
                    return Err(e);
                },
            }
            proof {
                let id = choose|id: TripleId|
                    {
                        ||| (!before.contains(id) && self.gen_ids() == before.push(id))
                        ||| (before.contains(id) && self.gen_ids() == before)
                    };
                if !before.contains(id) && self.gen_ids() == before.push(id) {
                    assert(self.gen_ids().subrange(0, pre.gen_ids().len() as int) =~= pre.gen_ids());
                    assert forall|j: int|
                        pre.gen_ids().len() <= j < self.gen_ids().len() implies !pre.gen_ids().contains(
                        #[trigger] self.gen_ids()[j],
                    ) by {
                        if j < before.len() {
                            assert(self.gen_ids()[j] == before[j]);
                        } else {
                            assert(self.gen_ids()[j] == id);
                            if pre.gen_ids().contains(id) {
                                let q = choose|q: int|
                                    0 <= q < pre.gen_ids().len() && pre.gen_ids()[q] == id;
                                assert(before.subrange(0, pre.gen_ids().len() as int)[q] == id);
                                assert(before.contains(id));
                            }
                        }
                    }
                }
            }
            k = k + 1;
        }
        Ok(())
    }

    /// Ensure that the triple with the given id is either already generated
    /// (returns nothing), currently being generated (returns its protocol),
    /// or never seen, in which case a protocol joining its generation is
    /// started and returned — which fails, if and only if the configuration
    /// cannot start one.
    pub fn get_or_generate(&mut self, id: TripleId) -> (r: Result<
        Option<&mut TripleProtocol>,
        CryptographicError,
    >)
        ensures
            (!old(self).triples@.contains_key(id) && !old(self).gen_ids().contains(id) && !old(
                self,
            ).can_initiate()) ==> r is Err,
            match r {
                Ok(opt) => match opt {
                    None => old(self).triples@.contains_key(id) && *final(self) == *old(self),
                    Some(p) => {
                        &&& !old(self).triples@.contains_key(id)
                        &&& final(self).same_config(*old(self))
                        &&& final(self).triples == old(self).triples
                        &&& final(self).mine == old(self).mine
                        &&& {
                            (exists|i: int|
                                0 <= i < old(self).generators@.len() && (#[trigger] old(
                                    self,
                                ).generators@[i]).0 == id && final(self).generators@ == old(
                                    self,
                                ).generators@.update(i, (id, *final(p)))) || (!old(
                                self,
                            ).gen_ids().contains(id) && final(self).generators@ == old(
                                self,
                            ).generators@.push((id, *final(p))))
                        }
                    },
                },
                Err(e) => {
                    &&& *final(self) == *old(self)
                    &&& !old(self).triples@.contains_key(id)
                    &&& !old(self).gen_ids().contains(id)
                    &&& !old(self).can_initiate()
                    &&& e is CaitSithInitializationError
                },
            },
    {
        if self.triples.contains_key(&id) {
            return Ok(None);
        }
        let n = self.generators.len();
        let mut i: usize = 0;
        let mut found: usize = n;
        while i < n
            invariant
                0 <= i <= n,
                n == self.generators@.len(),
                found == n || (0 <= found < i && (#[trigger] self.generators@[found as int]).0
                    == id),
                found == n ==> forall|k: int|
                    0 <= k < i ==> (#[trigger] self.generators@[k]).0 != id,
            decreases n - i,
        {
            if found == n && self.generators[i].0 == id {
                found = i;
            }
            i = i + 1;
        }
        if found < n {
            proof {
                assert(old(self).gen_ids()[found as int] == id);
                assert(old(self).gen_ids().contains(id));
            }
            let entry = &mut self.generators[found];
            Ok(Some(&mut entry.1))
        } else {
            proof {
                assert(!old(self).gen_ids().contains(id)) by {
                    if old(self).gen_ids().contains(id) {
                        let k = choose|k: int|
                            0 <= k < old(self).gen_ids().len() && old(self).gen_ids()[k] == id;
                        assert(old(self).generators@[k].0 == id);
                    }
                }
            }
            match start_triple_protocol(&self.participants, self.me, self.threshold) {
                Err(e) => Err(CryptographicError::CaitSithInitializationError(e)),
                Ok(protocol) => {
                    self.generators.push((id, protocol));
                    let last = self.generators.len() - 1;
                    let entry = &mut self.generators[last];
                    Ok(Some(&mut entry.1))
                },
            }
        }
    }

    /// Poke all ongoing generation protocols, collecting the messages they
    /// want sent.  A protocol that asks to wait is retained; one that fails
    /// is dropped and its error surfaced after the pass; one that completes
    /// hands its triple to the pool, and the id is queued as ours exactly
    /// when the stable hash of the big_c commitment selects this node.
    ///
    /// Every message carries this manager's epoch, names this node as its
    /// sender, and refers to a protocol that was in flight when the call
    /// began.  Triples present before the call are untouched.
    pub fn poke(&mut self) -> (r: Result<Vec<(bool, Participant, TripleMessage)>, ProtocolError>)
        requires
            old(self).participants@.len() > 0,
        ensures
            final(self).same_config(*old(self)),
            old(self).triples_wf() ==> final(self).triples_wf(),
            old(self).generators@.len() == 0 ==> (r matches Ok(msgs) && msgs@.len() == 0
                && final(self).generators@ == old(self).generators@
                && final(self).triples@ == old(self).triples@
                && final(self).mine@ == old(self).mine@),
            r is Ok ==> forall|q: TripleId| #[trigger]
                old(self).gen_ids().contains(q) ==> (final(self).gen_ids().contains(q)
                    || final(self).triples@.contains_key(q)),
            forall|id: TripleId| #[trigger]
                old(self).triples@.contains_key(id) ==> final(self).triples@.contains_key(id)
                    && final(self).triples@[id] == old(self).triples@[id],
            forall|id: TripleId| #[trigger]
                final(self).triples@.contains_key(id) && !old(self).triples@.contains_key(id)
                    ==> old(self).gen_ids().contains(id) && final(self).triples@[id].id == id,
            forall|id: TripleId| #[trigger]
                final(self).gen_ids().contains(id) ==> old(self).gen_ids().contains(id),
            final(self).mine@.len() >= old(self).mine@.len(),
            final(self).mine@.subrange(0, old(self).mine@.len() as int) == old(self).mine@,
            forall|k: int|
                old(self).mine@.len() <= k < final(self).mine@.len() ==> {
                    let id = #[trigger] final(self).mine@[k];
                    &&& final(self).triples@.contains_key(id)
                    &&& !old(self).triples@.contains_key(id)
                    &&& spec_is_mine(
                        final(self).triples@[id].public.big_c@,
                        old(self).participants@,
                        old(self).me,
                    )
                },
            forall|id: TripleId| #[trigger]
                final(self).triples@.contains_key(id) && !old(self).triples@.contains_key(id)
                    && spec_is_mine(
                    final(self).triples@[id].public.big_c@,
                    old(self).participants@,
                    old(self).me,
                ) ==> final(self).mine@.skip(old(self).mine@.len() as int).contains(id),
            match r {
                Ok(msgs) => forall|k: int|
                    0 <= k < msgs@.len() ==> {
                        &&& (#[trigger] msgs@[k]).2.from == old(self).me
                        &&& msgs@[k].2.epoch == old(self).epoch
                        &&& old(self).gen_ids().contains(msgs@[k].2.id)
                    },
                Err(_) => true,
            },
    {
        let ghost pre = *self;
        let mut gens: Vec<(TripleId, TripleProtocol)> = Vec::new();
        std::mem::swap(&mut gens, &mut self.generators);
        let mut messages: Vec<(bool, Participant, TripleMessage)> = Vec::new();
        let mut failure: Option<ProtocolError> = None;
        proof {
            assert(gens@ == pre.generators@);
            assert forall|k: int| 0 <= k < gens@.len() implies pre.gen_ids().contains(
                (#[trigger] gens@[k]).0,
            ) by {
                assert(pre.gen_ids()[k] == gens@[k].0);
            }
            assert forall|q: TripleId| #[trigger] pre.gen_ids().contains(q) implies exists|k: int|
                0 <= k < gens@.len() && (#[trigger] gens@[k]).0 == q by {
                let j = choose|j: int| 0 <= j < pre.gen_ids().len() && pre.gen_ids()[j] == q;
                assert(gens@[j].0 == q);
            }
        }
        while gens.len() > 0
            invariant
                pre == *old(self),
                self.same_config(pre),
                self.participants@.len() > 0,
                pre.generators@.len() == 0 ==> failure is None,
                failure is None ==> forall|q: TripleId| #[trigger]
                    pre.gen_ids().contains(q) ==> ((exists|k: int|
                        0 <= k < gens@.len() && (#[trigger] gens@[k]).0 == q) || (exists|k: int|
                        0 <= k < self.generators@.len() && (#[trigger] self.generators@[k]).0 == q)
                        || self.triples@.contains_key(q)),
                forall|k: int|
                    0 <= k < gens@.len() ==> pre.gen_ids().contains((#[trigger] gens@[k]).0),
                forall|k: int|
                    0 <= k < self.generators@.len() ==> pre.gen_ids().contains(
                        (#[trigger] self.generators@[k]).0,
                    ),
                forall|id: TripleId| #[trigger]
                    pre.triples@.contains_key(id) ==> self.triples@.contains_key(id)
                        && self.triples@[id] == pre.triples@[id],
                forall|id: TripleId| #[trigger]
                    self.triples@.contains_key(id) && !pre.triples@.contains_key(id)
                        ==> pre.gen_ids().contains(id) && self.triples@[id].id == id,
                self.mine@.len() >= pre.mine@.len(),
                self.mine@.subrange(0, pre.mine@.len() as int) == pre.mine@,
                forall|k: int|
                    pre.mine@.len() <= k < self.mine@.len() ==> {
                        let id = #[trigger] self.mine@[k];
                        &&& self.triples@.contains_key(id)
                        &&& !pre.triples@.contains_key(id)
                        &&& spec_is_mine(
                            self.triples@[id].public.big_c@,
                            pre.participants@,
                            pre.me,
                        )
                    },
                forall|id: TripleId| #[trigger]
                    self.triples@.contains_key(id) && !pre.triples@.contains_key(id)
                        && spec_is_mine(
                        self.triples@[id].public.big_c@,
                        pre.participants@,
                        pre.me,
                    ) ==> self.mine@.skip(pre.mine@.len() as int).contains(id),
                forall|k: int|
                    0 <= k < messages@.len() ==> {
                        &&& (#[trigger] messages@[k]).2.from == pre.me
                        &&& messages@[k].2.epoch == pre.epoch
                        &&& pre.gen_ids().contains(messages@[k].2.id)
                    },
            decreases gens@.len(),
        {
            let ghost gens_top = gens@;
            let ghost kept_top = self.generators@;
            let ghost triples_top = self.triples@;
            let (id, mut gen) = gens.remove(0);
            let mut fuel: usize = MAX_ACTIONS_PER_POKE;
            let mut running = true;
            let mut retain = true;
            let mut completed: Option<(TripleShare, TriplePublic)> = None;
            let mut failed: Option<ProtocolError> = None;
            while running && fuel > 0
                invariant
                    self.same_config(pre),
                    pre.gen_ids().contains(id),
                    running ==> retain && completed is None && failed is None,
                    !running ==> (match (retain, &completed, &failed) {
                        (true, Option::None, Option::None) => true,
                        (false, Option::Some(_), Option::None) => true,
                        (false, Option::None, Option::Some(_)) => true,
                        _ => false,
                    }),
                    forall|k: int|
                        0 <= k < messages@.len() ==> {
                            &&& (#[trigger] messages@[k]).2.from == pre.me
                            &&& messages@[k].2.epoch == pre.epoch
                            &&& pre.gen_ids().contains(messages@[k].2.id)
                        },
                decreases fuel,
            {
                fuel = fuel - 1;
                match gen.poke() {
                    Err(e) => {
                        failed = Some(e);
                        retain = false;
                        running = false;
                    },
                    Ok(action) => {
                        let ghost prev = messages@;
                        let step = apply_triple_action(
                            &self.participants,
                            self.me,
                            self.epoch,
                            id,
                            action,
                            &mut messages,
                        );
                        proof {
                            assert(messages@.subrange(0, prev.len() as int) == prev);
                            assert forall|k: int| 0 <= k < messages@.len() implies {
                                &&& (#[trigger] messages@[k]).2.from == pre.me
                                &&& messages@[k].2.epoch == pre.epoch
                                &&& pre.gen_ids().contains(messages@[k].2.id)
                            } by {
                                if k < prev.len() {
                                    assert(messages@.subrange(0, prev.len() as int)[k]
                                        == messages@[k]);
                                }
                            }
                        }
                        match step {
                            TripleStep::Continue => {},
                            TripleStep::Wait => {
                                running = false;
                            },
                            TripleStep::Completed(share, public) => {
                                completed = Some((share, public));
                                retain = false;
                                running = false;
                            },
                        }
                    },
                }
            }
            match failed {
                Some(e) => {
                    failure = Some(e);
                },
                None => {
                    match completed {
                        Some((share, public)) => {
                            if !self.triples.contains_key(&id) {
                                let ghost mid = *self;
                                let ghost n = pre.mine@.len() as int;
                                let owner = owner_of_big_c(&public.big_c, &self.participants);
                                let is_mine = owner == self.me;
                                if is_mine {
                                    self.mine.push_back(id);
                                }
                                let triple = Triple { id, share, public };
                                let ghost big_c_seq = triple.public.big_c@;
                                self.triples.insert(id, triple);
                                proof {
                                    assert(self.triples@ == mid.triples@.insert(id, triple));
                                    if is_mine {
                                        assert(self.mine@ == mid.mine@.push(id));
                                        assert(self.mine@.subrange(0, n) =~= pre.mine@);
                                        assert forall|k: int|
                                            n <= k < self.mine@.len() implies {
                                            let q = #[trigger] self.mine@[k];
                                            &&& self.triples@.contains_key(q)
                                            &&& !pre.triples@.contains_key(q)
                                            &&& spec_is_mine(
                                                self.triples@[q].public.big_c@,
                                                pre.participants@,
                                                pre.me,
                                            )
                                        } by {
                                            if k < mid.mine@.len() {
                                                assert(self.mine@[k] == mid.mine@[k]);
                                            } else {
                                                assert(self.mine@[k] == id);
                                                assert(self.triples@[id].public.big_c@
                                                    == big_c_seq);
                                            }
                                        }
                                    } else {
                                        assert(self.mine@ == mid.mine@);
                                    }
                                    assert forall|q: TripleId|
                                        self.triples@.contains_key(q)
                                            && !pre.triples@.contains_key(q) && spec_is_mine(
                                            self.triples@[q].public.big_c@,
                                            pre.participants@,
                                            pre.me,
                                        ) implies #[trigger] self.mine@.skip(n).contains(q) by {
                                        if q == id {
                                            assert(is_mine);
                                            let last = self.mine@.len() - 1;
                                            assert(self.mine@[last] == id);
                                            assert(self.mine@.skip(n)[last - n] == id);
                                        } else {
                                            assert(mid.triples@.contains_key(q));
                                            assert(mid.triples@[q] == self.triples@[q]);
                                            assert(mid.mine@.skip(n).contains(q));
                                            let j = choose|j: int|
                                                0 <= j < mid.mine@.skip(n).len()
                                                    && mid.mine@.skip(n)[j] == q;
                                            assert(self.mine@[j + n] == mid.mine@[j + n]);
                                            assert(self.mine@.skip(n)[j] == q);
                                        }
                                    }
                                }
                            }
                        },
                        None => {
                            if retain {
                                self.generators.push((id, gen));
                                proof {
                                    assert(self.generators@[kept_top.len() as int].0 == id);
                                }
                            }
                        },
                    }
                },
            }
            proof {
                if failure is None {
                    assert forall|q: TripleId| #[trigger] pre.gen_ids().contains(q) implies ((
                    exists|k: int| 0 <= k < gens@.len() && (#[trigger] gens@[k]).0 == q) || (
                    exists|k: int|
                        0 <= k < self.generators@.len() && (#[trigger] self.generators@[k]).0 == q)
                        || self.triples@.contains_key(q)) by {
                        if exists|k: int|
                            0 <= k < gens_top.len() && (#[trigger] gens_top[k]).0 == q {
                            let k = choose|k: int|
                                0 <= k < gens_top.len() && (#[trigger] gens_top[k]).0 == q;
                            if k == 0 {
                                assert(q == id);
                            } else {
                                assert(gens@[k - 1].0 == q);
                            }
                        } else if exists|k: int|
                            0 <= k < kept_top.len() && (#[trigger] kept_top[k]).0 == q {
                            let k = choose|k: int|
                                0 <= k < kept_top.len() && (#[trigger] kept_top[k]).0 == q;
                            assert(self.generators@[k].0 == q);
                        } else {
                            assert(triples_top.contains_key(q));
                        }
                    }
                }
            }
        }
        proof {
            assert forall|q: TripleId| #[trigger]
                pre.gen_ids().contains(q) && failure is None implies (self.gen_ids().contains(q)
                || self.triples@.contains_key(q)) by {
                if exists|k: int|
                    0 <= k < self.generators@.len() && (#[trigger] self.generators@[k]).0 == q {
                    let k = choose|k: int|
                        0 <= k < self.generators@.len() && (#[trigger] self.generators@[k]).0 == q;
                    assert(self.gen_ids()[k] == q);
                }
            }
            if pre.generators@.len() == 0 {
                assert(pre.gen_ids().len() == 0);
                assert(self.triples@ =~= pre.triples@);
                if self.mine@.len() > pre.mine@.len() {
                    let q = self.mine@[pre.mine@.len() as int];
                    assert(self.triples@.contains_key(q) && !pre.triples@.contains_key(q));
                    assert(false);
                }
                assert(self.mine@ =~= self.mine@.subrange(0, pre.mine@.len() as int));
                if self.generators@.len() > 0 {
                    assert(pre.gen_ids().contains(self.generators@[0].0));
                    assert(false);
                }
                assert(self.generators@ =~= pre.generators@);
                if messages@.len() > 0 {
                    assert(pre.gen_ids().contains(messages@[0].2.id));
                    assert(false);
                }
            }
        }
        match failure {
            Some(e) => Err(e),
            None => Ok(messages),
        }
    }

    /// Take two unspent triples by id, with no way to return them; both are
    /// removed, or neither is and the first absent id comes back as the
    /// error.  Reusing a triple for two protocols would leak the key, so a
    /// taken id can never be handed out again.
    pub fn take_two(&mut self, id0: TripleId, id1: TripleId) -> (r: Result<
        (Triple, Triple),
        TripleId,
    >)
        requires
            id0 != id1,
        ensures
            final(self).same_config(*old(self)),
            final(self).mine == old(self).mine,
            final(self).generators == old(self).generators,
            old(self).triples_wf() ==> final(self).triples_wf(),
            match r {
                Ok((t0, t1)) => {
                    &&& old(self).triples@.contains_key(id0)
                    &&& old(self).triples@.contains_key(id1)
                    &&& t0 == old(self).triples@[id0]
                    &&& t1 == old(self).triples@[id1]
                    &&& old(self).triples_wf() ==> (t0.id == id0 && t1.id == id1)
                    &&& final(self).triples@ == old(self).triples@.remove(id0).remove(id1)
                    &&& takes_only(old(self).triples@, final(self).triples@, set![id0, id1])
                },
                Err(absent) => {
                    &&& final(self).triples == old(self).triples
                    &&& (absent == id0 && !old(self).triples@.contains_key(id0)) || (absent == id1
                        && old(self).triples@.contains_key(id0) && !old(
                        self,
                    ).triples@.contains_key(id1))
                },
            },
    {
        if !self.triples.contains_key(&id0) {
            Err(id0)
        } else if !self.triples.contains_key(&id1) {
            Err(id1)
        } else {
            let t0 = self.triples.remove(&id0).unwrap();
            let t1 = self.triples.remove(&id1).unwrap();
            proof {
                assert(final(self).triples@ =~= old(self).triples@.remove_keys(set![id0, id1]));
            }
            Ok((t0, t1))
        }
    }

    /// Take the two oldest triples this node owns.  Either both are taken or
    /// none is: when the two oldest owned ids are distinct and both still in
    /// the pool, they come back; if they are no longer in the pool (already
    /// consumed through `take_two`), they are simply lost and nothing is
    /// returned.
    pub fn take_two_mine(&mut self) -> (r: Option<(Triple, Triple)>)
        ensures
            (old(self).mine@.len() >= 2 && old(self).mine@[0] != old(self).mine@[1] && old(
                self,
            ).triples@.contains_key(old(self).mine@[0]) && old(self).triples@.contains_key(
                old(self).mine@[1],
            )) ==> r is Some,
            final(self).same_config(*old(self)),
            final(self).generators == old(self).generators,
            old(self).triples_wf() ==> final(self).triples_wf(),
            old(self).mine@.len() < 2 ==> *final(self) == *old(self) && r is None,
            old(self).mine@.len() >= 2 ==> final(self).mine@ == old(self).mine@.skip(2),
            match r {
                Some((t0, t1)) => {
                    let id0 = old(self).mine@[0];
                    let id1 = old(self).mine@[1];
                    &&& old(self).triples_wf() ==> (t0.id == id0 && t1.id == id1)
                    &&& old(self).mine@.len() >= 2
                    &&& id0 != id1
                    &&& old(self).triples@.contains_key(id0)
                    &&& old(self).triples@.contains_key(id1)
                    &&& t0 == old(self).triples@[id0]
                    &&& t1 == old(self).triples@[id1]
                    &&& final(self).triples@ == old(self).triples@.remove(id0).remove(id1)
                    &&& takes_only(old(self).triples@, final(self).triples@, set![id0, id1])
                },
                None => final(self).triples == old(self).triples,
            },
    {
        if self.mine.len() < 2 {
            return None;
        }
        let id0 = match self.mine.pop_front() {
            Some(id) => id,
            None => {
                return None;
            },
        };
        let id1 = match self.mine.pop_front() {
            Some(id) => id,
            None => {
                return None;
            },
        };
        if id0 == id1 {
            // The queue is out of step with the pool; the ids are lost.
            return None;
        }
        match self.take_two(id0, id1) {
            Ok(pair) => Some(pair),
            Err(_) => None,
        }
    }
}

/// Solves `pile * nodes * nodes == max_messages` for the pile: how many
/// triples may be generated at once so that the quorum-wide message volume,
/// which scales with the square of the quorum size, stays under the cap.
pub fn calc_optimal_pile(max_messages: usize, nodes: usize) -> (r: usize)
    requires
        nodes >= 1,
        nodes * nodes <= usize::MAX,
    ensures
        r == (max_messages as int) / ((nodes as int) * (nodes as int)),
{
    assert(nodes * nodes >= 1) by (nonlinear_arith)
        requires
            nodes >= 1,
    ;
    max_messages / (nodes * nodes)
}

} // verus!
