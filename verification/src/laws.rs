//! The guarantees the registry gives across calls, stated over the
//! model transitions that the operations' contracts are written in and
//! proved once and for all.

use vstd::prelude::*;

use crate::contract::{
    close_next, close_result, create_next, create_result, fresh_poll, get_result, list_result,
    STATUS_OPEN,
};
use crate::errors::VoteError;
use crate::model::{group_of, PollModel, RegModel};
use crate::protocol::{complete_next, complete_result, token_owner_of, QueryResponse};

verus! {

/// A committed ballot marks its credential in the addressed record's
/// tally: after a successful completion, the record still exists and
/// holds the credential with the chosen answer.
pub proof fn lemma_commit_marks_credential(
    reg: RegModel,
    auth: Seq<char>,
    index: u64,
    answer: u8,
    cred: Seq<char>,
    account: Seq<char>,
    responses: Seq<QueryResponse>,
)
    requires
        complete_result(reg, auth, index, answer, cred, account, responses) == Ok::<(), VoteError>(
            (),
        ),
    ensures
        ({
            let reg2 = complete_next(reg, auth, index, answer, cred, account, responses);
            &&& reg2.contains_key(auth)
            &&& reg2[auth].len() == reg[auth].len()
            &&& (index as int) < reg2[auth].len()
            &&& reg2[auth][index as int].votes.contains_key(cred)
            &&& reg2[auth][index as int].votes[cred] == answer
            &&& reg2[auth][index as int].status == reg[auth][index as int].status
        }),
{
}

/// Exactly-once counting per credential: once a record's tally holds a
/// credential, no later completion for that record and credential can
/// commit, whatever answer, claimed caller or responses it brings; the
/// registry is left exactly as it was, and an attempt that passes
/// verification and authorization against the still-open record is
/// answered with `AlreadyVoted`.  Together with
/// `lemma_commit_marks_credential` this makes any sequence of
/// completions for one credential commit at most once.
pub proof fn lemma_tally_idempotent(
    reg: RegModel,
    auth: Seq<char>,
    index: u64,
    answer: u8,
    cred: Seq<char>,
    account: Seq<char>,
    responses: Seq<QueryResponse>,
)
    requires
        reg.contains_key(auth),
        (index as int) < reg[auth].len(),
        reg[auth][index as int].votes.contains_key(cred),
    ensures
        complete_result(reg, auth, index, answer, cred, account, responses) != Ok::<(), VoteError>(
            (),
        ),
        complete_next(reg, auth, index, answer, cred, account, responses) == reg,
        (responses.len() == 1 && (responses[0] matches QueryResponse::Successful(bytes)
            && token_owner_of(bytes@) == Some(account)) && reg[auth][index as int].status
            == STATUS_OPEN) ==> complete_result(reg, auth, index, answer, cred, account, responses)
            == Err::<(), VoteError>(VoteError::AlreadyVoted),
{
}

/// Answer bound: a completion that reaches the range check with an
/// answer index at or past the end of the record's answer list is
/// refused with `InvalidAnswer`, and no tally changes.
pub proof fn lemma_answer_bound(
    reg: RegModel,
    auth: Seq<char>,
    index: u64,
    answer: u8,
    cred: Seq<char>,
    account: Seq<char>,
    responses: Seq<QueryResponse>,
)
    requires
        responses.len() == 1,
        responses[0] matches QueryResponse::Successful(bytes) && token_owner_of(bytes@) == Some(
            account,
        ),
        reg.contains_key(auth),
        (index as int) < reg[auth].len(),
        reg[auth][index as int].status == STATUS_OPEN,
        !reg[auth][index as int].votes.contains_key(cred),
        answer as int >= reg[auth][index as int].answers.len(),
    ensures
        complete_result(reg, auth, index, answer, cred, account, responses) == Err::<(), VoteError>(
            VoteError::InvalidAnswer,
        ),
        complete_next(reg, auth, index, answer, cred, account, responses) == reg,
{
}

/// Owner-only close: a close by any identity other than the record's
/// creator is refused with `Unauthorized`, and every record — its
/// status in particular — stays as it was.
pub proof fn lemma_owner_only_close(
    reg: RegModel,
    auth: Seq<char>,
    index: u64,
    caller: Seq<char>,
)
    requires
        reg.contains_key(auth),
        (index as int) < reg[auth].len(),
        caller != reg[auth][index as int].owner_id,
    ensures
        close_result(reg, auth, index, caller) == Err::<(), VoteError>(VoteError::Unauthorized),
        close_next(reg, auth, index, caller) == reg,
{
}

/// Pagination degrades gracefully: an offset at or past the end of the
/// group — in particular any offset against an authority with no group
/// at all — yields the empty sequence, never an error.
pub proof fn lemma_pagination_degrades(
    reg: RegModel,
    auth: Seq<char>,
    limit: u64,
    offset: u64,
)
    requires
        offset as int >= group_of(reg, auth).len(),
    ensures
        list_result(reg, auth, limit, offset) == Seq::<PollModel>::empty(),
{
}

/// Round trip: creating a poll and immediately reading it back at the
/// returned index yields a record whose authority, owner, texts and
/// answers are exactly the inputs, whose status is open, and whose
/// tally is empty.
pub proof fn lemma_create_get_round_trip(
    reg: RegModel,
    auth: Seq<char>,
    owner: Seq<char>,
    name: Seq<char>,
    description: Seq<char>,
    meta: Seq<char>,
    answers: Seq<Seq<char>>,
)
    requires
        answers.len() >= 1,
        group_of(reg, auth).len() < u64::MAX,
    ensures
        ({
            let id = group_of(reg, auth).len() as u64;
            let reg2 = create_next(reg, auth, owner, name, description, meta, answers);
            &&& create_result(reg, auth, answers) == Ok::<u64, VoteError>(id)
            &&& get_result(reg2, auth, id) == Ok::<PollModel, VoteError>(
                fresh_poll(auth, owner, name, description, meta, answers),
            )
            &&& fresh_poll(auth, owner, name, description, meta, answers) == (PollModel {
                nft_contract_id: auth,
                owner_id: owner,
                name: name,
                description: description,
                meta: meta,
                status: STATUS_OPEN,
                answers: answers,
                votes: Map::empty(),
            })
        }),
{
}

} // verus!
