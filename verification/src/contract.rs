//! The poll registry: records, groups, and the poll-management
//! operations (create, read, paginate, close).

use vstd::prelude::*;

use crate::errors::VoteError;
use crate::model::{
    group_keys_unique, group_of, lemma_reg_view_contains, lemma_reg_view_get,
    lemma_reg_view_push, lemma_reg_view_update, polls_view, reg_view, tally_keys_unique,
    PollModel, RegModel,
};

verus! {

/// One poll record: who opened it, its text, its fixed answer list, and
/// the tally of ballots committed so far.
pub struct Vote {
    pub nft_contract_id: String,
    pub owner_id: String,
    pub name: String,
    pub description: String,
    pub meta: String,
    pub status: u8,
    pub answers: Vec<String>,
    pub votes: Vec<(String, u8)>,
}

/// The flattened read view of a poll record that the read operations
/// return: the answer list materialized and the tally as pairs.
pub struct VoteOutModel {
    pub nft_contract_id: String,
    pub owner_id: String,
    pub name: String,
    pub description: String,
    pub meta: String,
    pub status: u8,
    pub answers: Vec<String>,
    pub votes: Vec<(String, u8)>,
}

/// All polls grouped under one authority, in creation order.
pub struct Group {
    pub authority_id: String,
    pub polls: Vec<Vote>,
}

/// The whole registry: one group per authority.
pub struct Contract {
    pub groups: Vec<Group>,
}

/// A poll is open to new ballots.
pub const STATUS_OPEN: u8 = 0;

/// A poll is closed; no further ballots are accepted.
pub const STATUS_CLOSED: u8 = 1;

/// The record a successful creation appends: owned by its creator,
/// open, with the given texts and answers and an empty tally.
pub open spec fn fresh_poll(
    auth: Seq<char>,
    owner: Seq<char>,
    name: Seq<char>,
    description: Seq<char>,
    meta: Seq<char>,
    answers: Seq<Seq<char>>,
) -> PollModel {
    PollModel {
        nft_contract_id: auth,
        owner_id: owner,
        name: name,
        description: description,
        meta: meta,
        status: STATUS_OPEN,
        answers: answers,
        votes: Map::empty(),
    }
}

/// What creation returns: the new poll's index in its authority group,
/// or `InvalidInput` for an empty answer list.
pub open spec fn create_result(reg: RegModel, auth: Seq<char>, answers: Seq<Seq<char>>) -> Result<
    u64,
    VoteError,
> {
    if answers.len() == 0 {
        Err(VoteError::InvalidInput)
    } else {
        Ok(group_of(reg, auth).len() as u64)
    }
}

/// The registry after creation: the fresh record appended to the
/// authority's group, every other group untouched.
pub open spec fn create_next(
    reg: RegModel,
    auth: Seq<char>,
    owner: Seq<char>,
    name: Seq<char>,
    description: Seq<char>,
    meta: Seq<char>,
    answers: Seq<Seq<char>>,
) -> RegModel {
    if answers.len() == 0 {
        reg
    } else {
        reg.insert(
            auth,
            group_of(reg, auth).push(fresh_poll(auth, owner, name, description, meta, answers)),
        )
    }
}

/// What a read returns: the addressed record, or `NotFound` when the
/// authority has no group or the index is out of range.
pub open spec fn get_result(reg: RegModel, auth: Seq<char>, index: u64) -> Result<
    PollModel,
    VoteError,
> {
    if !reg.contains_key(auth) || index as int >= reg[auth].len() {
        Err(VoteError::NotFound)
    } else {
        Ok(reg[auth][index as int])
    }
}

/// What pagination returns: up to `limit` records from `offset` on, in
/// index order, degrading to a shorter or empty sequence at the end of
/// the group; never an error.
pub open spec fn list_result(reg: RegModel, auth: Seq<char>, limit: u64, offset: u64) -> Seq<
    PollModel,
> {
    let ps = group_of(reg, auth);
    if offset as int >= ps.len() {
        Seq::empty()
    } else if offset as int + limit as int >= ps.len() {
        ps.subrange(offset as int, ps.len() as int)
    } else {
        ps.subrange(offset as int, offset as int + limit as int)
    }
}

/// What closing returns: `NotFound` for a missing record, `Unauthorized`
/// for any caller but the record's owner, success otherwise — also when
/// the record is already closed.
pub open spec fn close_result(
    reg: RegModel,
    auth: Seq<char>,
    index: u64,
    caller: Seq<char>,
) -> Result<(), VoteError> {
    if !reg.contains_key(auth) || index as int >= reg[auth].len() {
        Err(VoteError::NotFound)
    } else if reg[auth][index as int].owner_id != caller {
        Err(VoteError::Unauthorized)
    } else {
        Ok(())
    }
}

/// A record after closing: only its status changes.
pub open spec fn closed_poll(p: PollModel) -> PollModel {
    PollModel { status: STATUS_CLOSED, ..p }
}

/// The registry after closing: the addressed record replaced by its
/// closed form on success, everything untouched otherwise.
pub open spec fn close_next(
    reg: RegModel,
    auth: Seq<char>,
    index: u64,
    caller: Seq<char>,
) -> RegModel {
    if close_result(reg, auth, index, caller) is Ok {
        reg.insert(auth, reg[auth].update(index as int, closed_poll(reg[auth][index as int])))
    } else {
        reg
    }
}

impl Vote {
    /// Internal consistency of one record: a recognised status, a
    /// non-empty answer list, at most one tally entry per credential,
    /// and every tallied answer in range.
    pub open spec fn wf(self) -> bool {
        &&& self.status == STATUS_OPEN || self.status == STATUS_CLOSED
        &&& self.answers@.len() >= 1
        &&& tally_keys_unique(self.votes@)
        &&& forall|i: int| 0 <= i < self.votes@.len() ==>
            (self.votes@[i].1 as int) < self.answers@.len()
    }
}

impl Contract {
    /// Internal consistency of the registry: one group per authority,
    /// and every stored record consistent.
    pub open spec fn wf(self) -> bool {
        &&& group_keys_unique(self.groups@)
        &&& forall|i: int, j: int|
            0 <= i < self.groups@.len() && 0 <= j < self.groups@[i].polls@.len() ==>
            (#[trigger] self.groups@[i].polls@[j]).wf()
    }

    /// The empty registry, created once at system initialization.
    pub fn new() -> (c: Contract)
        ensures
            c.wf(),
            c@ == Map::<Seq<char>, Seq<PollModel>>::empty(),
    {
        Contract { groups: Vec::new() }
    }

    /// The position of the authority's group, if it has one.
    pub(crate) fn find_group(&self, key: &String) -> (r: Option<usize>)
        ensures
            match r {
                Some(i) => i < self.groups@.len() && self.groups@[i as int].authority_id@ == key@,
                None => forall|i: int|
                    0 <= i < self.groups@.len() ==> self.groups@[i].authority_id@ != key@,
            },
    {
        let mut i: usize = 0;
        while i < self.groups.len()
            invariant
                i <= self.groups@.len(),
                forall|j: int| 0 <= j < i ==> self.groups@[j].authority_id@ != key@,
            decreases self.groups@.len() - i,
        {
            if self.groups[i].authority_id == *key {
                return Some(i);
            }
            i += 1;
        }
        None
    }

    /// Creation: appends a new open record with an empty tally to the
    /// authority's group and returns its index, the stable poll id.
    /// The only rejected input is an empty answer list; the creation
    /// fee is the environment's affair and enforced before this call.
    pub fn create_vote(
        &mut self,
        owner_id: String,
        nft_contract_id: String,
        name: String,
        description: String,
        meta: String,
        answers: Vec<String>,
    ) -> (r: Result<u64, VoteError>)
        requires
            old(self).wf(),
        ensures
            final(self).wf(),
            r == create_result(old(self)@, nft_contract_id@, answers.deep_view()),
            final(self)@ == create_next(
                old(self)@,
                nft_contract_id@,
                owner_id@,
                name@,
                description@,
                meta@,
                answers.deep_view(),
            ),
            r is Err ==> *final(self) == *old(self),
    {
        if answers.len() == 0 {
            return Err(VoteError::InvalidInput);
        }
        let ghost gs0 = self.groups@;
        let vote = Vote {
            nft_contract_id: nft_contract_id.clone(),
            owner_id: owner_id,
            name: name,
            description: description,
            meta: meta,
            status: STATUS_OPEN,
            answers: answers,
            votes: Vec::new(),
        };
        proof {
            assert(vote@ =~= fresh_poll(
                nft_contract_id@,
                owner_id@,
                name@,
                description@,
                meta@,
                answers.deep_view(),
            ));
        }
        match self.find_group(&nft_contract_id) {
            Some(gi) => {
                proof {
                    lemma_reg_view_get(gs0, gi as int);
                }
                let mut g = Group { authority_id: String::new(), polls: Vec::new() };
                self.groups.set_and_swap(gi, &mut g);
                let id = g.polls.len() as u64;
                let ghost polls0 = g.polls@;
                g.polls.push(vote);
                let ghost g1 = g;
                self.groups.set(gi, g);
                proof {
                    assert(self.groups@ =~= gs0.update(gi as int, g1));
                    lemma_reg_view_update(gs0, gi as int, g1);
                    assert(polls_view(g1.polls@) =~= group_of(reg_view(gs0), nft_contract_id@)
                        .push(vote@));
                    assert(self.wf()) by {
                        assert forall|i: int, j: int|
                            0 <= i < self.groups@.len() && 0 <= j < self.groups@[i].polls@.len()
                            implies (#[trigger] self.groups@[i].polls@[j]).wf() by {
                            if i == gi as int && j == polls0.len() as int {
                                assert(self.groups@[i].polls@[j] == vote);
                            } else if i == gi as int {
                                assert(self.groups@[i].polls@[j] == gs0[i].polls@[j]);
                            }
                        }
                    }
                }
                Ok(id)
            },
            None => {
                proof {
                    lemma_reg_view_contains(gs0, nft_contract_id@);
                }
                let mut polls: Vec<Vote> = Vec::new();
                polls.push(vote);
                let g = Group { authority_id: nft_contract_id, polls: polls };
                let ghost g1 = g;
                self.groups.push(g);
                proof {
                    lemma_reg_view_push(gs0, g1);
                    assert(polls_view(g1.polls@) =~= group_of(reg_view(gs0), g1.authority_id@)
                        .push(vote@));
                    assert(self.wf()) by {
                        assert forall|i: int, j: int|
                            0 <= i < self.groups@.len() && 0 <= j < self.groups@[i].polls@.len()
                            implies (#[trigger] self.groups@[i].polls@[j]).wf() by {
                            if i == gs0.len() as int {
                                assert(self.groups@[i].polls@[j] == vote);
                            } else {
                                assert(self.groups@[i].polls@[j] == gs0[i].polls@[j]);
                            }
                        }
                    }
                }
                Ok(0)
            },
        }
    }

    /// Read: the flattened view of one record, every field exposed.
    /// A pure query: no payment, no side effect.
    pub fn get_vote(&self, contract_id: String, index: u64) -> (r: Result<VoteOutModel, VoteError>)
        requires
            self.wf(),
        ensures
            match (r, get_result(self@, contract_id@, index)) {
                (Ok(m), Ok(pm)) => m@ == pm,
                (Err(e), Err(pe)) => e == pe,
                _ => false,
            },
    {
        match self.find_group(&contract_id) {
            None => {
                proof {
                    lemma_reg_view_contains(self.groups@, contract_id@);
                }
                Err(VoteError::NotFound)
            },
            Some(gi) => {
                proof {
                    lemma_reg_view_get(self.groups@, gi as int);
                }
                let g = &self.groups[gi];
                if index >= g.polls.len() as u64 {
                    return Err(VoteError::NotFound);
                }
                Ok(to_out_model(&g.polls[index as usize]))
            },
        }
    }

    /// Pagination: up to `limit` record views from `offset` on, in
    /// index order; shorter once the group is exhausted, empty for an
    /// unknown authority or an offset past the end — never an error.
    pub fn get_votes_by_contract(&self, contract_id: String, limit: u64, offset: u64) -> (r: Vec<
        VoteOutModel,
    >)
        requires
            self.wf(),
        ensures
            r@.map_values(|m: VoteOutModel| m@) == list_result(self@, contract_id@, limit, offset),
    {
        let result: Vec<VoteOutModel> = Vec::new();
        match self.find_group(&contract_id) {
            None => {
                proof {
                    lemma_reg_view_contains(self.groups@, contract_id@);
                    assert(result@.map_values(|m: VoteOutModel| m@) =~= list_result(
                        self@,
                        contract_id@,
                        limit,
                        offset,
                    ));
                }
                result
            },
            Some(gi) => {
                proof {
                    lemma_reg_view_get(self.groups@, gi as int);
                }
                let mut result = result;
                let g = &self.groups[gi];
                let len = g.polls.len();
                if offset >= len as u64 {
                    proof {
                        assert(result@.map_values(|m: VoteOutModel| m@) =~= list_result(
                            self@,
                            contract_id@,
                            limit,
                            offset,
                        ));
                    }
                    return result;
                }
                let start = offset as usize;
                let remaining = len - start;
                let take = if limit > remaining as u64 {
                    remaining
                } else {
                    limit as usize
                };
                let mut i: usize = 0;
                while i < take
                    invariant
                        self.wf(),
                        gi < self.groups@.len(),
                        g == self.groups@[gi as int],
                        start + take <= len,
                        len == g.polls@.len(),
                        i <= take,
                        result@.len() == i,
                        forall|k: int|
                            0 <= k < i ==> (#[trigger] result@[k])@ == g.polls@[start + k]@,
                    decreases take - i,
                {
                    result.push(to_out_model(&g.polls[start + i]));
                    i += 1;
                }
                proof {
                    assert(result@.map_values(|m: VoteOutModel| m@) =~= list_result(
                        self@,
                        contract_id@,
                        limit,
                        offset,
                    ));
                }
                result
            },
        }
    }

    /// Close: only the record's owner may move it from open to closed;
    /// the transition never reverses.  Closing an already-closed record
    /// succeeds silently and changes nothing.
    pub fn close_vote(&mut self, contract_id: String, index: u64, caller_id: String) -> (r: Result<
        (),
        VoteError,
    >)
        requires
            old(self).wf(),
        ensures
            final(self).wf(),
            r == close_result(old(self)@, contract_id@, index, caller_id@),
            final(self)@ == close_next(old(self)@, contract_id@, index, caller_id@),
            r is Err ==> *final(self) == *old(self),
    {
        let ghost gs0 = self.groups@;
        let gi = match self.find_group(&contract_id) {
            None => {
                proof {
                    lemma_reg_view_contains(gs0, contract_id@);
                }
                return Err(VoteError::NotFound);
            },
            Some(gi) => gi,
        };
        proof {
            lemma_reg_view_get(gs0, gi as int);
        }
        if index >= self.groups[gi].polls.len() as u64 {
            return Err(VoteError::NotFound);
        }
        let pi = index as usize;
        if !(self.groups[gi].polls[pi].owner_id == caller_id) {
            return Err(VoteError::Unauthorized);
        }
        let mut g = Group { authority_id: String::new(), polls: Vec::new() };
        self.groups.set_and_swap(gi, &mut g);
        let mut p = Vote {
            nft_contract_id: String::new(),
            owner_id: String::new(),
            name: String::new(),
            description: String::new(),
            meta: String::new(),
            status: STATUS_OPEN,
            answers: Vec::new(),
            votes: Vec::new(),
        };
        let ghost polls0 = g.polls@;
        g.polls.set_and_swap(pi, &mut p);
        p.status = STATUS_CLOSED;
        let ghost p1 = p;
        g.polls.set(pi, p);
        let ghost g1 = g;
        self.groups.set(gi, g);
        proof {
            assert(g1.polls@ =~= polls0.update(pi as int, p1));
            assert(p1@ =~= closed_poll(polls0[pi as int]@));
            assert(self.groups@ =~= gs0.update(gi as int, g1));
            lemma_reg_view_update(gs0, gi as int, g1);
            assert(polls_view(g1.polls@) =~= polls_view(polls0).update(pi as int, p1@));
            assert(self.wf()) by {
                assert forall|i: int, j: int|
                    0 <= i < self.groups@.len() && 0 <= j < self.groups@[i].polls@.len() implies (
                #[trigger] self.groups@[i].polls@[j]).wf() by {
                    if i == gi as int && j == pi as int {
                        assert(self.groups@[i].polls@[j] == p1);
                        assert(polls0[j].wf());
                    } else if i == gi as int {
                        assert(self.groups@[i].polls@[j] == gs0[i].polls@[j]);
                    }
                }
            }
        }
        Ok(())
    }
}

/// An element-wise copy of a list of answer texts.
fn clone_string_vec(v: &Vec<String>) -> (r: Vec<String>)
    ensures
        r@ == v@,
{
    let mut r: Vec<String> = Vec::new();
    let mut i: usize = 0;
    while i < v.len()
        invariant
            i <= v@.len(),
            r@ == v@.subrange(0, i as int),
        decreases v@.len() - i,
    {
        r.push(v[i].clone());
        proof {
            assert(v@.subrange(0, i + 1 as int) =~= v@.subrange(0, i as int).push(v@[i as int]));
        }
        i += 1;
    }
    proof {
        assert(v@.subrange(0, v@.len() as int) =~= v@);
    }
    r
}

/// An element-wise copy of a tally's credential/answer pairs.
fn clone_tally(v: &Vec<(String, u8)>) -> (r: Vec<(String, u8)>)
    ensures
        r@ == v@,
{
    let mut r: Vec<(String, u8)> = Vec::new();
    let mut i: usize = 0;
    while i < v.len()
        invariant
            i <= v@.len(),
            r@ == v@.subrange(0, i as int),
        decreases v@.len() - i,
    {
        let entry = (v[i].0.clone(), v[i].1);
        proof {
            assert(entry =~= v@[i as int]);
            assert(v@.subrange(0, i + 1 as int) =~= v@.subrange(0, i as int).push(v@[i as int]));
        }
        r.push(entry);
        i += 1;
    }
    proof {
        assert(v@.subrange(0, v@.len() as int) =~= v@);
    }
    r
}

/// The flattened read view of one stored record.
fn to_out_model(p: &Vote) -> (m: VoteOutModel)
    ensures
        m@ == p@,
{
    let m = VoteOutModel {
        nft_contract_id: p.nft_contract_id.clone(),
        owner_id: p.owner_id.clone(),
        name: p.name.clone(),
        description: p.description.clone(),
        meta: p.meta.clone(),
        status: p.status,
        answers: clone_string_vec(&p.answers),
        votes: clone_tally(&p.votes),
    };
    proof {
        assert(m@ =~= p@);
    }
    m
}

} // verus!
