//! The two-phase vote submission protocol.
//!
//! The dispatch phase (`Contract::vote`) builds the correlation payload
//! that must travel across the asynchronous gap to the ownership
//! verifier and back.  The completion phase (`Contract::complete_vote`)
//! receives that payload together with the raw verification responses,
//! validates everything, and commits the ballot — the single point that
//! mutates the tally.

use vstd::prelude::*;

use crate::contract::{Contract, Group, Vote, STATUS_OPEN};
use crate::errors::VoteError;
use crate::model::{
    lemma_reg_view_contains, lemma_reg_view_get, lemma_reg_view_update,
    lemma_tally_view_contains, lemma_tally_view_push, polls_view, tally_view, PollModel, RegModel,
};

verus! {

/// The interface of the external token registry that the dispatch phase
/// queries; implemented by the authority's own contract, not here.
pub trait NftContract {
    fn nft_token(&self, token_id: String);
}

/// The interface under which the system schedules its own completion
/// callback; implemented by the deployed service, not here.
pub trait MyContract {
    fn update_total_balance_callback(&self);
}

/// The correlation payload of one vote attempt: everything the
/// completion phase needs to validate and commit, carried across the
/// asynchronous gap so that phase never has to trust the external
/// response for these fields.
pub struct VoteRequest {
    /// The authority whose group holds the poll, and the registry the
    /// ownership query is addressed to.
    pub contract_id: String,
    /// The poll's index within the authority's group.
    pub index: u64,
    /// The chosen answer index.
    pub answer: u8,
    /// The credential whose ownership entitles the ballot.
    pub nft_token_id: String,
    /// The identity that claims to cast this ballot.
    pub account_id: String,
}

/// One raw outcome of the dispatched ownership query, as the
/// environment hands it to the completion callback.
pub enum QueryResponse {
    /// The query has not completed; its presence in a callback is a
    /// protocol violation.
    NotReady,
    /// The query completed without a successful result.
    Failed,
    /// The query succeeded with these response bytes.
    Successful(Vec<u8>),
}

/// What the commit step returns once an owner has been decoded from
/// the verification response: a decoded owner other than the claimed
/// caller is refused; then the addressed record must exist, still be
/// open, not yet hold the credential, and the answer must be in range.
pub open spec fn commit_result(
    reg: RegModel,
    auth: Seq<char>,
    index: u64,
    answer: u8,
    cred: Seq<char>,
    account: Seq<char>,
    owner: Seq<char>,
) -> Result<(), VoteError> {
    if owner != account {
        Err(VoteError::Unauthorized)
    } else if !reg.contains_key(auth) || index as int >= reg[auth].len() {
        Err(VoteError::NotFound)
    } else if reg[auth][index as int].status != STATUS_OPEN {
        Err(VoteError::PollClosed)
    } else if reg[auth][index as int].votes.contains_key(cred) {
        Err(VoteError::AlreadyVoted)
    } else if answer as int >= reg[auth][index as int].answers.len() {
        Err(VoteError::InvalidAnswer)
    } else {
        Ok(())
    }
}

/// A record after a commit: only the tally changes, by exactly the one
/// new entry.
pub open spec fn committed_poll(p: PollModel, cred: Seq<char>, answer: u8) -> PollModel {
    PollModel { votes: p.votes.insert(cred, answer), ..p }
}

/// The registry after the commit step: on success the addressed record
/// carries the new tally entry; on any rejection nothing changes.
pub open spec fn commit_next(
    reg: RegModel,
    auth: Seq<char>,
    index: u64,
    answer: u8,
    cred: Seq<char>,
    account: Seq<char>,
    owner: Seq<char>,
) -> RegModel {
    if commit_result(reg, auth, index, answer, cred, account, owner) is Ok {
        reg.insert(
            auth,
            reg[auth].update(
                index as int,
                committed_poll(reg[auth][index as int], cred, answer),
            ),
        )
    } else {
        reg
    }
}

/// What completion returns: a callback with other than exactly one
/// ready result is a protocol violation; a failed or undecodable
/// response aborts with nothing mutated; a decoded owner is handed to
/// the commit step.
pub open spec fn complete_result(
    reg: RegModel,
    auth: Seq<char>,
    index: u64,
    answer: u8,
    cred: Seq<char>,
    account: Seq<char>,
    responses: Seq<QueryResponse>,
) -> Result<(), VoteError> {
    if responses.len() != 1 {
        Err(VoteError::InternalError)
    } else {
        match responses[0] {
            QueryResponse::NotReady => Err(VoteError::InternalError),
            QueryResponse::Failed => Err(VoteError::VerificationFailed),
            QueryResponse::Successful(bytes) => match token_owner_of(bytes@) {
                None => Err(VoteError::VerificationFailed),
                Some(owner) => commit_result(reg, auth, index, answer, cred, account, owner),
            },
        }
    }
}

/// The registry after completion: the commit step's outcome when an
/// owner was decoded, unchanged otherwise.
pub open spec fn complete_next(
    reg: RegModel,
    auth: Seq<char>,
    index: u64,
    answer: u8,
    cred: Seq<char>,
    account: Seq<char>,
    responses: Seq<QueryResponse>,
) -> RegModel {
    if responses.len() == 1 && (responses[0] matches QueryResponse::Successful(bytes)
        && token_owner_of(bytes@) is Some) {
        commit_next(
            reg,
            auth,
            index,
            answer,
            cred,
            account,
            token_owner_of(responses[0]->Successful_0@)->Some_0,
        )
    } else {
        reg
    }
}

/// The owner declared by a token record encoded in the given bytes, or
/// nothing when the bytes do not decode to such a record.  The value is
/// a function of the bytes alone.
pub uninterp spec fn token_owner_of(bytes: Seq<u8>) -> Option<Seq<char>>;

/// Relies on `near_sdk::serde_json::from_slice` for
/// `near_contract_standards::non_fungible_token::Token`: decoding is a
/// function of the bytes alone, and on success the record declares its
/// owning account.
#[verifier::external_body]
fn decode_token_owner(bytes: &Vec<u8>) -> (r: Option<String>)
    ensures
        match (r, token_owner_of(bytes@)) {
            (Some(s), Some(o)) => s@ == o,
            (None, None) => true,
            _ => false,
        },
{
    let parsed = near_sdk::serde_json::from_slice::<
        near_contract_standards::non_fungible_token::Token,
    >(bytes.as_slice());
    match parsed {
        Ok(token) => Some(String::from(token.owner_id)),
        Err(_) => None,
    }
}

/// Whether the tally already holds an entry for this credential.
fn tally_contains(votes: &Vec<(String, u8)>, key: &String) -> (r: bool)
    ensures
        r == tally_view(votes@).contains_key(key@),
{
    let mut i: usize = 0;
    while i < votes.len()
        invariant
            i <= votes@.len(),
            forall|j: int| 0 <= j < i ==> votes@[j].0@ != key@,
        decreases votes@.len() - i,
    {
        if votes[i].0 == *key {
            proof {
                lemma_tally_view_contains(votes@, key@);
            }
            return true;
        }
        i += 1;
    }
    proof {
        lemma_tally_view_contains(votes@, key@);
    }
    false
}

impl Contract {
    /// Dispatch phase: builds the correlation payload for one vote
    /// attempt, to be carried across the asynchronous ownership query
    /// and handed back to the completion phase.  Deliberately performs
    /// no validation and no mutation: everything is re-checked at
    /// commit time, where it is authoritative.
    pub fn vote(
        &self,
        contract_id: String,
        index: u64,
        answer: u8,
        nft_token_id: String,
        account_id: String,
    ) -> (r: VoteRequest)
        ensures
            r.contract_id == contract_id,
            r.index == index,
            r.answer == answer,
            r.nft_token_id == nft_token_id,
            r.account_id == account_id,
    {
        VoteRequest { contract_id, index, answer, nft_token_id, account_id }
    }

    /// The commit step with the decoded owner in hand: re-validates
    /// everything against the correlation payload and, only when every
    /// check passes, commits the ballot — the single point that
    /// mutates a tally.
    pub fn commit_vote(
        &mut self,
        contract_id: String,
        index: u64,
        answer: u8,
        nft_token_id: String,
        account_id: String,
        owner: String,
    ) -> (r: Result<(), VoteError>)
        requires
            old(self).wf(),
        ensures
            final(self).wf(),
            r == commit_result(
                old(self)@,
                contract_id@,
                index,
                answer,
                nft_token_id@,
                account_id@,
                owner@,
            ),
            final(self)@ == commit_next(
                old(self)@,
                contract_id@,
                index,
                answer,
                nft_token_id@,
                account_id@,
                owner@,
            ),
            r is Err ==> *final(self) == *old(self),
    {
        let ghost gs0 = self.groups@;
        if !(owner == account_id) {
            return Err(VoteError::Unauthorized);
        }
        let gi = match self.find_group(&contract_id) {
            None => {
                proof {
                    lemma_reg_view_contains(gs0, contract_id@);
                }
                return Err(VoteError::NotFound);
            },
            Some(gi) => gi,
        };
        proof {
            lemma_reg_view_get(gs0, gi as int);
        }
        if index >= self.groups[gi].polls.len() as u64 {
            return Err(VoteError::NotFound);
        }
        let pi = index as usize;
        if self.groups[gi].polls[pi].status != STATUS_OPEN {
            return Err(VoteError::PollClosed);
        }
        if tally_contains(&self.groups[gi].polls[pi].votes, &nft_token_id) {
            return Err(VoteError::AlreadyVoted);
        }
        if !((answer as usize) < self.groups[gi].polls[pi].answers.len()) {
            return Err(VoteError::InvalidAnswer);
        }
        let mut g = Group { authority_id: String::new(), polls: Vec::new() };
        self.groups.set_and_swap(gi, &mut g);
        let mut p = Vote {
            nft_contract_id: String::new(),
            owner_id: String::new(),
            name: String::new(),
            description: String::new(),
            meta: String::new(),
            status: STATUS_OPEN,
            answers: Vec::new(),
            votes: Vec::new(),
        };
        let ghost polls0 = g.polls@;
        g.polls.set_and_swap(pi, &mut p);
        let ghost votes0 = p.votes@;
        p.votes.push((nft_token_id, answer));
        let ghost p1 = p;
        g.polls.set(pi, p);
        let ghost g1 = g;
        self.groups.set(gi, g);
        proof {
            lemma_tally_view_push(votes0, p1.votes@.last());
            assert(p1@ =~= committed_poll(polls0[pi as int]@, nft_token_id@, answer));
            assert(g1.polls@ =~= polls0.update(pi as int, p1));
            assert(self.groups@ =~= gs0.update(gi as int, g1));
            lemma_reg_view_update(gs0, gi as int, g1);
            assert(polls_view(g1.polls@) =~= polls_view(polls0).update(pi as int, p1@));
            lemma_tally_view_contains(votes0, nft_token_id@);
            assert(self.wf()) by {
                assert forall|i: int, j: int|
                    0 <= i < self.groups@.len() && 0 <= j < self.groups@[i].polls@.len() implies (
                #[trigger] self.groups@[i].polls@[j]).wf() by {
                    if i == gi as int && j == pi as int {
                        assert(self.groups@[i].polls@[j] == p1);
                        assert(polls0[j].wf());
                        assert forall|a: int, b: int| 0 <= a < b < p1.votes@.len() implies
                            p1.votes@[a].0@ != p1.votes@[b].0@ by {
                            if b == p1.votes@.len() - 1 {
                                assert(p1.votes@[a] == votes0[a]);
                            } else {
                                assert(p1.votes@[a] == votes0[a]);
                                assert(p1.votes@[b] == votes0[b]);
                            }
                        }
                    } else if i == gi as int {
                        assert(self.groups@[i].polls@[j] == gs0[i].polls@[j]);
                    }
                }
            }
        }
        Ok(())
    }

    /// Completion phase: sorts the raw verification responses, decodes
    /// the owner, and hands the commit step everything it needs.  Must
    /// be invoked by the system itself, never an arbitrary caller, so
    /// a forged response can never reach it.
    pub fn complete_vote(
        &mut self,
        contract_id: String,
        index: u64,
        answer: u8,
        nft_token_id: String,
        account_id: String,
        results: Vec<QueryResponse>,
    ) -> (r: Result<(), VoteError>)
        requires
            old(self).wf(),
        ensures
            final(self).wf(),
            r == complete_result(
                old(self)@,
                contract_id@,
                index,
                answer,
                nft_token_id@,
                account_id@,
                results@,
            ),
            final(self)@ == complete_next(
                old(self)@,
                contract_id@,
                index,
                answer,
                nft_token_id@,
                account_id@,
                results@,
            ),
            r is Err ==> *final(self) == *old(self),
    {
        if results.len() != 1 {
            return Err(VoteError::InternalError);
        }
        let owner = match &results[0] {
            QueryResponse::NotReady => {
                return Err(VoteError::InternalError);
            },
            QueryResponse::Failed => {
                return Err(VoteError::VerificationFailed);
            },
            QueryResponse::Successful(bytes) => {
                match decode_token_owner(bytes) {
                    None => {
                        return Err(VoteError::VerificationFailed);
                    },
                    Some(owner) => owner,
                }
            },
        };
        self.commit_vote(contract_id, index, answer, nft_token_id, account_id, owner)
    }
}

} // verus!
