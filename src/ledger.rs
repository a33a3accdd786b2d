use crate::accounts::{Account, AgentProfile, ReasoningCommitment};
use crate::address::Address;
use vstd::prelude::*;

verus! {

/// The accounts that `s` holds, keyed by address; a later entry wins.
pub open spec fn map_of(s: Seq<(Address, Account)>) -> Map<Address, Account>
    decreases s.len(),
{
    if s.len() == 0 {
        Map::empty()
    } else {
        map_of(s.drop_last()).insert(s.last().0, s.last().1)
    }
}

/// No address occurs twice in `s`.
pub open spec fn keys_unique(s: Seq<(Address, Account)>) -> bool {
    forall|i: int, j: int| 0 <= i < j < s.len() ==> s[i].0 != s[j].0
}

/// The entry is an unrevealed commitment of the profile at `agent`.
pub open spec fn is_pending_for(e: (Address, Account), agent: Address) -> bool {
    match e.1 {
        Account::Commitment(c) => c.agent == agent && !c.revealed,
        Account::Profile(_) => false,
    }
}

/// How many unrevealed commitments of the profile at `agent` `s` holds.
pub open spec fn pending(s: Seq<(Address, Account)>, agent: Address) -> nat
    decreases s.len(),
{
    if s.len() == 0 {
        0
    } else {
        pending(s.drop_last(), agent) + if is_pending_for(s.last(), agent) {
            1nat
        } else {
            0nat
        }
    }
}

/// `p` with one more published commitment.
pub open spec fn with_commitment_counted(p: AgentProfile) -> AgentProfile {
    AgentProfile { total_commitments: (p.total_commitments + 1) as u64, ..p }
}

/// `p` with one more revealed commitment.
pub open spec fn with_reveal_counted(p: AgentProfile) -> AgentProfile {
    AgentProfile { total_verified: (p.total_verified + 1) as u64, ..p }
}

/// `c` after its reveal with `uri`.
pub open spec fn revealed_with(c: ReasoningCommitment, uri: String) -> ReasoningCommitment {
    ReasoningCommitment { revealed: true, reasoning_uri: uri, ..c }
}

proof fn lemma_map_of_keys(s: Seq<(Address, Account)>, a: Address)
    ensures
        map_of(s).contains_key(a) <==> exists|i: int| 0 <= i < s.len() && s[i].0 == a,
    decreases s.len(),
{
    if s.len() > 0 {
        let d = s.drop_last();
        lemma_map_of_keys(d, a);
        if map_of(s).contains_key(a) {
            if s.last().0 == a {
                assert(s[s.len() - 1].0 == a);
            } else {
                let i = choose|i: int| 0 <= i < d.len() && d[i].0 == a;
                assert(s[i].0 == a);
            }
        }
        if exists|i: int| 0 <= i < s.len() && s[i].0 == a {
            let i = choose|i: int| 0 <= i < s.len() && s[i].0 == a;
            if i < s.len() - 1 {
                assert(d[i].0 == a);
            }
        }
    }
}

proof fn lemma_map_of_index(s: Seq<(Address, Account)>, i: int)
    requires
        keys_unique(s),
        0 <= i < s.len(),
    ensures
        map_of(s).contains_key(s[i].0),
        map_of(s)[s[i].0] == s[i].1,
    decreases s.len(),
{
    if i < s.len() - 1 {
        let d = s.drop_last();
        assert(d[i] == s[i]);
        lemma_map_of_index(d, i);
        assert(s.last().0 != s[i].0);
    }
}

proof fn lemma_map_of_push(s: Seq<(Address, Account)>, e: (Address, Account))
    ensures
        map_of(s.push(e)) == map_of(s).insert(e.0, e.1),
        forall|agent: Address| pending(s.push(e), agent) == pending(s, agent) + if is_pending_for(e, agent) { 1nat } else { 0nat },
{
    assert(s.push(e).drop_last() =~= s);
}

proof fn lemma_map_of_update(s: Seq<(Address, Account)>, i: int, v: Account)
    requires
        keys_unique(s),
        0 <= i < s.len(),
    ensures
        map_of(s.update(i, (s[i].0, v))) =~= map_of(s).insert(s[i].0, v),
    decreases s.len(),
{
    let u = s.update(i, (s[i].0, v));
    let d = s.drop_last();
    if i == s.len() - 1 {
        assert(u.drop_last() =~= d);
    } else {
        assert(u.drop_last() =~= d.update(i, (d[i].0, v)));
        lemma_map_of_update(d, i, v);
        assert(s.last().0 != s[i].0);
    }
}

proof fn lemma_pending_update(s: Seq<(Address, Account)>, i: int, e: (Address, Account), agent: Address)
    requires
        0 <= i < s.len(),
    ensures
        pending(s.update(i, e), agent) as int == pending(s, agent) as int
            - (if is_pending_for(s[i], agent) { 1int } else { 0int })
            + (if is_pending_for(e, agent) { 1int } else { 0int }),
    decreases s.len(),
{
    let u = s.update(i, e);
    let d = s.drop_last();
    if i == s.len() - 1 {
        assert(u.drop_last() =~= d);
    } else {
        assert(u.drop_last() =~= d.update(i, e));
        lemma_pending_update(d, i, e, agent);
    }
}

proof fn lemma_pending_none(s: Seq<(Address, Account)>, agent: Address)
    requires
        forall|i: int| 0 <= i < s.len() ==> !is_pending_for(#[trigger] s[i], agent),
    ensures
        pending(s, agent) == 0,
    decreases s.len(),
{
    if s.len() > 0 {
        let d = s.drop_last();
        assert forall|i: int| 0 <= i < d.len() implies !is_pending_for(#[trigger] d[i], agent) by {
            assert(d[i] == s[i]);
        }
        lemma_pending_none(d, agent);
        assert(s.last() == s[s.len() - 1]);
    }
}

/// In every well-formed ledger, and so in every state the operations reach
/// from an empty one, no profile counts more reveals than commitments.
pub proof fn lemma_verified_within_commitments(l: &Ledger)
    requires
        l.wf(),
    ensures
        forall|a: Address|
            #![trigger l.accounts()[a]]
            l.accounts().contains_key(a) && l.accounts()[a] is Profile ==> l.accounts()[a]->Profile_0.total_verified
                <= l.accounts()[a]->Profile_0.total_commitments,
{
}

/// An unrevealed commitment is counted in its profile but not yet as
/// revealed, so the profile has revealed fewer than it has published.
pub proof fn lemma_unrevealed_leaves_room(l: &Ledger, at: Address)
    requires
        l.wf(),
        l.accounts().contains_key(at),
        l.accounts()[at] matches Account::Commitment(c) && !c.revealed,
    ensures
        ({
            let c = l.accounts()[at]->Commitment_0;
            &&& l.accounts().contains_key(c.agent)
            &&& l.accounts()[c.agent] matches Account::Profile(p)
            &&& p.total_verified < p.total_commitments
        }),
{
    let s = l.entries@;
    let m = map_of(s);
    let c = m[at]->Commitment_0;
    lemma_map_of_keys(s, at);
    let k = choose|i: int| 0 <= i < s.len() && s[i].0 == at;
    lemma_map_of_index(s, k);
    lemma_pending_update(s, k, (at, m[c.agent]), c.agent);
    assert(m[c.agent] is Profile);
}

/// The accounts of the protocol, each at its own address.
pub struct Ledger {
    program: Address,
    entries: Vec<(Address, Account)>,
}

impl Ledger {
    /// The accounts, keyed by address.
    pub closed spec fn accounts(&self) -> Map<Address, Account> {
        map_of(self.entries@)
    }

    /// The program the accounts are derived under.
    pub closed spec fn program(&self) -> Address {
        self.program
    }

    /// Addresses are unique; every commitment points at a profile; and each
    /// profile's published count is its revealed count plus the number of
    /// its commitments still unrevealed.
    pub closed spec fn wf(&self) -> bool {
        let s = self.entries@;
        let m = map_of(s);
        &&& keys_unique(s)
        &&& forall|a: Address|
            #![trigger m[a]]
            m.contains_key(a) ==> (m[a] matches Account::Commitment(c) ==> m.contains_key(c.agent)
                && m[c.agent] is Profile)
        &&& forall|a: Address|
            #![trigger m[a]]
            m.contains_key(a) ==> (m[a] matches Account::Profile(p) ==> p.total_verified + pending(s, a)
                == p.total_commitments)
    }

    /// A ledger with no accounts, for the program `program`.
    pub fn new(program: Address) -> (r: Ledger)
        ensures
            r.wf(),
            r.accounts() == Map::<Address, Account>::empty(),
            r.program() == program,
    {
        let r = Ledger { program, entries: Vec::new() };
        assert(map_of(r.entries@) == Map::<Address, Account>::empty());
        r
    }

    /// The program the accounts are derived under.
    pub fn program_id(&self) -> (r: Address)
        ensures
            r == self.program(),
    {
        self.program
    }

    fn index_of(&self, a: &Address) -> (r: Option<usize>)
        requires
            self.wf(),
        ensures
            match r {
                Some(i) => i < self.entries@.len() && self.entries@[i as int].0 == *a
                    && self.accounts().contains_key(*a) && self.accounts()[*a] == self.entries@[i as int].1,
                None => !self.accounts().contains_key(*a),
            },
    {
        let mut i: usize = 0;
        while i < self.entries.len()
            invariant
                self.wf(),
                i <= self.entries@.len(),
                forall|j: int| 0 <= j < i ==> self.entries@[j].0 != *a,
            decreases self.entries@.len() - i,
        {
            if self.entries[i].0.same_as(a) {
                proof {
                    lemma_map_of_index(self.entries@, i as int);
                }
                return Some(i);
            }
            i = i + 1;
        }
        proof {
            lemma_map_of_keys(self.entries@, *a);
        }
        None
    }

    /// Whether an account exists at `a`.
    pub fn contains(&self, a: &Address) -> (r: bool)
        requires
            self.wf(),
        ensures
            r == self.accounts().contains_key(*a),
    {
        self.index_of(a).is_some()
    }

    /// The profile at `a`, if `a` holds one.
    pub fn profile(&self, a: &Address) -> (r: Option<&AgentProfile>)
        requires
            self.wf(),
        ensures
            match r {
                Some(p) => self.accounts().contains_key(*a) && self.accounts()[*a] == Account::Profile(*p),
                None => !(self.accounts().contains_key(*a) && self.accounts()[*a] is Profile),
            },
    {
        match self.index_of(a) {
            Some(i) => match &self.entries[i].1 {
                Account::Profile(p) => Some(p),
                Account::Commitment(_) => None,
            },
            None => None,
        }
    }

    /// The commitment at `a`, if `a` holds one.
    pub fn commitment(&self, a: &Address) -> (r: Option<&ReasoningCommitment>)
        requires
            self.wf(),
        ensures
            match r {
                Some(c) => self.accounts().contains_key(*a) && self.accounts()[*a] == Account::Commitment(*c),
                None => !(self.accounts().contains_key(*a) && self.accounts()[*a] is Commitment),
            },
    {
        match self.index_of(a) {
            Some(i) => match &self.entries[i].1 {
                Account::Commitment(c) => Some(c),
                Account::Profile(_) => None,
            },
            None => None,
        }
    }

    /// Creates the profile `p` at the unused address `a`.
    pub(crate) fn insert_profile(&mut self, a: Address, p: AgentProfile)
        requires
            old(self).wf(),
            !old(self).accounts().contains_key(a),
            p.total_commitments == 0,
            p.total_verified == 0,
        ensures
            final(self).wf(),
            final(self).program() == old(self).program(),
            final(self).accounts() == old(self).accounts().insert(a, Account::Profile(p)),
    {
        let ghost s = self.entries@;
        let ghost m = map_of(s);
        proof {
            lemma_map_of_keys(s, a);
            assert forall|i: int| 0 <= i < s.len() implies !is_pending_for(#[trigger] s[i], a) by {
                lemma_map_of_index(s, i);
                assert(m.contains_key(s[i].0));
            }
            lemma_pending_none(s, a);
        }
        self.entries.push((a, Account::Profile(p)));
        proof {
            lemma_map_of_push(s, (a, Account::Profile(p)));
            let s2 = self.entries@;
            assert forall|i: int, j: int| 0 <= i < j < s2.len() implies s2[i].0 != s2[j].0 by {
                if j == s.len() {
                    assert(s[i].0 == s2[i].0);
                }
            }
            let m2 = map_of(s2);
            assert forall|b: Address| #![trigger m2[b]] m2.contains_key(b) implies (m2[b] matches Account::Commitment(c) ==> m2.contains_key(c.agent) && m2[c.agent] is Profile) by {
                if b != a {
                    assert(m2[b] == m[b]);
                }
            }
        }
    }

    /// Records the new unrevealed commitment `c` at the unused address `at`,
    /// and counts it in its profile.
    pub(crate) fn record_commitment(&mut self, at: Address, c: ReasoningCommitment)
        requires
            old(self).wf(),
            !old(self).accounts().contains_key(at),
            !c.revealed,
            old(self).accounts().contains_key(c.agent),
            old(self).accounts()[c.agent] matches Account::Profile(p) && p.total_commitments < u64::MAX,
        ensures
            final(self).wf(),
            final(self).program() == old(self).program(),
            final(self).accounts() == old(self).accounts().insert(at, Account::Commitment(c)).insert(
                c.agent,
                Account::Profile(with_commitment_counted(old(self).accounts()[c.agent]->Profile_0)),
            ),
    {
        let ghost s = self.entries@;
        let ghost m = map_of(s);
        let ghost p = m[c.agent]->Profile_0;
        let agent = c.agent;
        let k = match self.index_of(&agent) {
            Some(k) => k,
            None => {
                return;
            },
        };
        let np = match &self.entries[k].1 {
            Account::Profile(q) => AgentProfile {
                authority: q.authority,
                name: q.name.clone(),
                total_commitments: q.total_commitments + 1,
                total_verified: q.total_verified,
                accountability_score: q.accountability_score,
                created_at: q.created_at,
                bump: q.bump,
            },
            Account::Commitment(_) => {
                return;
            },
        };
        assert(np == with_commitment_counted(p));
        proof {
            lemma_map_of_keys(s, at);
        }
        self.entries.push((at, Account::Commitment(c)));
        let ghost s1 = self.entries@;
        proof {
            lemma_map_of_push(s, (at, Account::Commitment(c)));
            assert forall|i: int, j: int| 0 <= i < j < s1.len() implies s1[i].0 != s1[j].0 by {
                if j == s.len() {
                    assert(s[i].0 == s1[i].0);
                }
            }
            assert(s1[k as int] == s[k as int]);
            lemma_map_of_update(s1, k as int, Account::Profile(np));
        }
        self.entries.set(k, (agent, Account::Profile(np)));
        proof {
            let s2 = self.entries@;
            let m2 = map_of(s2);
            assert(s2 == s1.update(k as int, (s1[k as int].0, Account::Profile(np))));
            assert(keys_unique(s2)) by {
                assert forall|i: int, j: int| 0 <= i < j < s2.len() implies s2[i].0 != s2[j].0 by {
                    assert(s2[i].0 == s1[i].0 && s2[j].0 == s1[j].0);
                }
            }
            assert forall|b: Address| #![trigger m2[b]] m2.contains_key(b) implies (m2[b] matches Account::Commitment(x) ==> m2.contains_key(x.agent) && m2[x.agent] is Profile) by {
                if b != at && b != agent {
                    assert(m2[b] == m[b]);
                }
            }
            assert forall|b: Address| #![trigger m2[b]] m2.contains_key(b) implies (m2[b] matches Account::Profile(q) ==> q.total_verified + pending(s2, b) == q.total_commitments) by {
                lemma_pending_update(s1, k as int, (agent, Account::Profile(np)), b);
                if b != at && b != agent {
                    assert(m2[b] == m[b]);
                }
            }
        }
    }

    /// Marks the unrevealed commitment at `at` revealed with `uri`, and
    /// counts the reveal in its profile.
    pub(crate) fn record_reveal(&mut self, at: Address, uri: String)
        requires
            old(self).wf(),
            old(self).accounts().contains_key(at),
            old(self).accounts()[at] matches Account::Commitment(c) && !c.revealed,
        ensures
            final(self).wf(),
            final(self).program() == old(self).program(),
            ({
                let c = old(self).accounts()[at]->Commitment_0;
                &&& old(self).accounts().contains_key(c.agent)
                &&& old(self).accounts()[c.agent] matches Account::Profile(p)
                &&& p.total_verified < u64::MAX
                &&& final(self).accounts() == old(self).accounts().insert(at, Account::Commitment(revealed_with(c, uri))).insert(
                    c.agent,
                    Account::Profile(with_reveal_counted(p)),
                )
            }),
    {
        let ghost s = self.entries@;
        let ghost m = map_of(s);
        let ghost c = m[at]->Commitment_0;
        let ghost p = m[c.agent]->Profile_0;
        let kc = match self.index_of(&at) {
            Some(k) => k,
            None => {
                return;
            },
        };
        let nc = match &self.entries[kc].1 {
            Account::Commitment(x) => ReasoningCommitment {
                agent: x.agent,
                authority: x.authority,
                commitment_hash: x.commitment_hash,
                action_type: x.action_type.clone(),
                confidence: x.confidence,
                timestamp: x.timestamp,
                revealed: true,
                reasoning_uri: uri,
                nonce: x.nonce,
                bump: x.bump,
            },
            Account::Profile(_) => {
                return;
            },
        };
        assert(nc == revealed_with(c, uri));
        let agent = nc.agent;
        let kp = match self.index_of(&agent) {
            Some(k) => k,
            None => {
                return;
            },
        };
        proof {
            lemma_pending_update(s, kc as int, (at, Account::Commitment(nc)), agent);
            assert(m[agent] is Profile);
        }
        let np = match &self.entries[kp].1 {
            Account::Profile(q) => AgentProfile {
                authority: q.authority,
                name: q.name.clone(),
                total_commitments: q.total_commitments,
                total_verified: q.total_verified + 1,
                accountability_score: q.accountability_score,
                created_at: q.created_at,
                bump: q.bump,
            },
            Account::Commitment(_) => {
                return;
            },
        };
        assert(np == with_reveal_counted(p));
        proof {
            lemma_map_of_update(s, kc as int, Account::Commitment(nc));
        }
        self.entries.set(kc, (at, Account::Commitment(nc)));
        let ghost s1 = self.entries@;
        proof {
            assert(s1 == s.update(kc as int, (s[kc as int].0, Account::Commitment(nc))));
            assert(keys_unique(s1)) by {
                assert forall|i: int, j: int| 0 <= i < j < s1.len() implies s1[i].0 != s1[j].0 by {
                    assert(s1[i].0 == s[i].0 && s1[j].0 == s[j].0);
                }
            }
            lemma_map_of_update(s1, kp as int, Account::Profile(np));
        }
        self.entries.set(kp, (agent, Account::Profile(np)));
        proof {
            let s2 = self.entries@;
            let m2 = map_of(s2);
            assert(s2 == s1.update(kp as int, (s1[kp as int].0, Account::Profile(np))));
            assert(keys_unique(s2)) by {
                assert forall|i: int, j: int| 0 <= i < j < s2.len() implies s2[i].0 != s2[j].0 by {
                    assert(s2[i].0 == s1[i].0 && s2[j].0 == s1[j].0);
                }
            }
            assert forall|b: Address| #![trigger m2[b]] m2.contains_key(b) implies (m2[b] matches Account::Commitment(x) ==> m2.contains_key(x.agent) && m2[x.agent] is Profile) by {
                if b != at && b != agent {
                    assert(m2[b] == m[b]);
                }
            }
            assert forall|b: Address| #![trigger m2[b]] m2.contains_key(b) implies (m2[b] matches Account::Profile(q) ==> q.total_verified + pending(s2, b) == q.total_commitments) by {
                lemma_pending_update(s, kc as int, (at, Account::Commitment(nc)), b);
                lemma_pending_update(s1, kp as int, (agent, Account::Profile(np)), b);
                if b != at && b != agent {
                    assert(m2[b] == m[b]);
                }
            }
        }
    }
}

} // verus!
