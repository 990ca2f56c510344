use vote_contract::contract::Contract;
use vote_contract::errors::VoteError;
use vote_contract::protocol::QueryResponse;

fn fresh_poll_contract(owner: &str) -> Contract {
    let mut c = Contract::new();
    let id = c
        .create_vote(
            owner.to_string(),
            "nft.near".to_string(),
            "poll".to_string(),
            "desc".to_string(),
            "meta".to_string(),
            vec!["yes".to_string(), "no".to_string()],
        )
        .unwrap();
    assert_eq!(id, 0);
    c
}

fn token_json(token_id: &str, owner: &str) -> Vec<u8> {
    format!(
        "{{\"token_id\":\"{}\",\"owner_id\":\"{}\",\"metadata\":null,\"approved_account_ids\":null}}",
        token_id, owner
    )
    .into_bytes()
}

fn ok_response(token_id: &str, owner: &str) -> Vec<QueryResponse> {
    vec![QueryResponse::Successful(token_json(token_id, owner))]
}

fn tally_of(c: &Contract) -> Vec<(String, u8)> {
    c.get_vote("nft.near".to_string(), 0).unwrap().votes
}

#[test]
fn dispatch_builds_the_correlation_payload() {
    let c = fresh_poll_contract("alice.near");
    let req = c.vote(
        "nft.near".to_string(),
        0,
        1,
        "tok-1".to_string(),
        "alice.near".to_string(),
    );
    assert_eq!(req.contract_id, "nft.near");
    assert_eq!(req.index, 0);
    assert_eq!(req.answer, 1);
    assert_eq!(req.nft_token_id, "tok-1");
    assert_eq!(req.account_id, "alice.near");
}

#[test]
fn end_to_end_vote_commits_once_then_already_voted() {
    let mut c = fresh_poll_contract("alice.near");
    let req = c.vote(
        "nft.near".to_string(),
        0,
        0,
        "tok-1".to_string(),
        "alice.near".to_string(),
    );
    let r = c.complete_vote(
        req.contract_id,
        req.index,
        req.answer,
        req.nft_token_id,
        req.account_id,
        ok_response("tok-1", "alice.near"),
    );
    assert_eq!(r, Ok(()));
    assert_eq!(tally_of(&c), vec![("tok-1".to_string(), 0)]);

    let req = c.vote(
        "nft.near".to_string(),
        0,
        1,
        "tok-1".to_string(),
        "alice.near".to_string(),
    );
    let r = c.complete_vote(
        req.contract_id,
        req.index,
        req.answer,
        req.nft_token_id,
        req.account_id,
        ok_response("tok-1", "alice.near"),
    );
    assert_eq!(r, Err(VoteError::AlreadyVoted));
    assert_eq!(tally_of(&c), vec![("tok-1".to_string(), 0)]);
}

#[test]
fn unauthorized_when_declared_owner_differs_from_caller() {
    let mut c = fresh_poll_contract("alice.near");
    let r = c.complete_vote(
        "nft.near".to_string(),
        0,
        0,
        "tok-1".to_string(),
        "alice.near".to_string(),
        ok_response("tok-1", "bob.near"),
    );
    assert_eq!(r, Err(VoteError::Unauthorized));
    assert!(tally_of(&c).is_empty());
}

#[test]
fn two_credentials_both_count() {
    let mut c = fresh_poll_contract("alice.near");
    let r = c.complete_vote(
        "nft.near".to_string(),
        0,
        0,
        "tok-1".to_string(),
        "alice.near".to_string(),
        ok_response("tok-1", "alice.near"),
    );
    assert_eq!(r, Ok(()));
    let r = c.complete_vote(
        "nft.near".to_string(),
        0,
        1,
        "tok-2".to_string(),
        "bob.near".to_string(),
        ok_response("tok-2", "bob.near"),
    );
    assert_eq!(r, Ok(()));
    assert_eq!(
        tally_of(&c),
        vec![("tok-1".to_string(), 0), ("tok-2".to_string(), 1)]
    );
}

#[test]
fn out_of_range_answer_is_invalid_answer_and_mutates_nothing() {
    let mut c = fresh_poll_contract("alice.near");
    let r = c.complete_vote(
        "nft.near".to_string(),
        0,
        2,
        "tok-1".to_string(),
        "alice.near".to_string(),
        ok_response("tok-1", "alice.near"),
    );
    assert_eq!(r, Err(VoteError::InvalidAnswer));
    assert!(tally_of(&c).is_empty());
}

#[test]
fn failed_verification_aborts_without_mutation() {
    let mut c = fresh_poll_contract("alice.near");
    let r = c.complete_vote(
        "nft.near".to_string(),
        0,
        0,
        "tok-1".to_string(),
        "alice.near".to_string(),
        vec![QueryResponse::Failed],
    );
    assert_eq!(r, Err(VoteError::VerificationFailed));
    assert!(tally_of(&c).is_empty());
}

#[test]
fn undecodable_response_bytes_are_verification_failed() {
    let mut c = fresh_poll_contract("alice.near");
    let r = c.complete_vote(
        "nft.near".to_string(),
        0,
        0,
        "tok-1".to_string(),
        "alice.near".to_string(),
        vec![QueryResponse::Successful(b"not a token record".to_vec())],
    );
    assert_eq!(r, Err(VoteError::VerificationFailed));
    assert!(tally_of(&c).is_empty());
}

#[test]
fn callback_without_exactly_one_result_is_internal_error() {
    let mut c = fresh_poll_contract("alice.near");
    let r = c.complete_vote(
        "nft.near".to_string(),
        0,
        0,
        "tok-1".to_string(),
        "alice.near".to_string(),
        Vec::new(),
    );
    assert_eq!(r, Err(VoteError::InternalError));
    let r = c.complete_vote(
        "nft.near".to_string(),
        0,
        0,
        "tok-1".to_string(),
        "alice.near".to_string(),
        vec![
            QueryResponse::Successful(token_json("tok-1", "alice.near")),
            QueryResponse::Successful(token_json("tok-1", "alice.near")),
        ],
    );
    assert_eq!(r, Err(VoteError::InternalError));
    let r = c.complete_vote(
        "nft.near".to_string(),
        0,
        0,
        "tok-1".to_string(),
        "alice.near".to_string(),
        vec![QueryResponse::NotReady],
    );
    assert_eq!(r, Err(VoteError::InternalError));
    assert!(tally_of(&c).is_empty());
}

#[test]
fn commit_against_missing_poll_is_not_found() {
    let mut c = fresh_poll_contract("alice.near");
    let r = c.complete_vote(
        "nft.near".to_string(),
        7,
        0,
        "tok-1".to_string(),
        "alice.near".to_string(),
        ok_response("tok-1", "alice.near"),
    );
    assert_eq!(r, Err(VoteError::NotFound));
    let r = c.complete_vote(
        "unknown.near".to_string(),
        0,
        0,
        "tok-1".to_string(),
        "alice.near".to_string(),
        ok_response("tok-1", "alice.near"),
    );
    assert_eq!(r, Err(VoteError::NotFound));
}

#[test]
fn commit_after_close_is_refused() {
    let mut c = fresh_poll_contract("alice.near");
    assert_eq!(c.close_vote("nft.near".to_string(), 0, "alice.near".to_string()), Ok(()));
    let r = c.complete_vote(
        "nft.near".to_string(),
        0,
        0,
        "tok-1".to_string(),
        "alice.near".to_string(),
        ok_response("tok-1", "alice.near"),
    );
    assert_eq!(r, Err(VoteError::PollClosed));
    assert!(tally_of(&c).is_empty());
}

#[test]
fn commit_step_checks_the_decoded_owner_directly() {
    let mut c = fresh_poll_contract("alice.near");
    let r = c.commit_vote(
        "nft.near".to_string(),
        0,
        0,
        "tok-1".to_string(),
        "alice.near".to_string(),
        "alice.near".to_string(),
    );
    assert_eq!(r, Ok(()));
    let r = c.commit_vote(
        "nft.near".to_string(),
        0,
        1,
        "tok-2".to_string(),
        "bob.near".to_string(),
        "alice.near".to_string(),
    );
    assert_eq!(r, Err(VoteError::Unauthorized));
    assert_eq!(tally_of(&c), vec![("tok-1".to_string(), 0)]);
}

#[test]
fn decoded_owner_comes_from_the_response_bytes() {
    // The same caller is accepted or refused depending only on the
    // owner the response bytes declare.
    let mut c = fresh_poll_contract("alice.near");
    let r = c.complete_vote(
        "nft.near".to_string(),
        0,
        0,
        "tok-1".to_string(),
        "bob.near".to_string(),
        ok_response("tok-1", "alice.near"),
    );
    assert_eq!(r, Err(VoteError::Unauthorized));
    let r = c.complete_vote(
        "nft.near".to_string(),
        0,
        0,
        "tok-1".to_string(),
        "bob.near".to_string(),
        ok_response("tok-1", "bob.near"),
    );
    assert_eq!(r, Ok(()));
    assert_eq!(tally_of(&c), vec![("tok-1".to_string(), 0)]);
}
