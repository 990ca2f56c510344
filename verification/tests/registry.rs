use vote_contract::contract::Contract;
use vote_contract::errors::VoteError;

fn answers2() -> Vec<String> {
    vec!["yes".to_string(), "no".to_string()]
}

fn new_poll(c: &mut Contract, owner: &str, auth: &str, name: &str) -> u64 {
    c.create_vote(
        owner.to_string(),
        auth.to_string(),
        name.to_string(),
        "desc".to_string(),
        "meta".to_string(),
        answers2(),
    )
    .unwrap()
}

#[test]
fn create_returns_sequential_ids_per_authority() {
    let mut c = Contract::new();
    assert_eq!(new_poll(&mut c, "alice.near", "nft.near", "first"), 0);
    assert_eq!(new_poll(&mut c, "alice.near", "nft.near", "second"), 1);
    assert_eq!(new_poll(&mut c, "alice.near", "other.near", "elsewhere"), 0);
    assert_eq!(new_poll(&mut c, "alice.near", "nft.near", "third"), 2);
}

#[test]
fn create_with_empty_answers_is_invalid_input() {
    let mut c = Contract::new();
    let r = c.create_vote(
        "alice.near".to_string(),
        "nft.near".to_string(),
        "name".to_string(),
        "desc".to_string(),
        "meta".to_string(),
        Vec::new(),
    );
    assert_eq!(r, Err(VoteError::InvalidInput));
    assert_eq!(c.get_vote("nft.near".to_string(), 0).err(), Some(VoteError::NotFound));
}

#[test]
fn create_then_get_round_trips_every_field() {
    let mut c = Contract::new();
    let id = c
        .create_vote(
            "alice.near".to_string(),
            "nft.near".to_string(),
            "favourite colour".to_string(),
            "pick one".to_string(),
            "{}".to_string(),
            vec!["red".to_string(), "green".to_string(), "blue".to_string()],
        )
        .unwrap();
    let v = c.get_vote("nft.near".to_string(), id).unwrap();
    assert_eq!(v.nft_contract_id, "nft.near");
    assert_eq!(v.owner_id, "alice.near");
    assert_eq!(v.name, "favourite colour");
    assert_eq!(v.description, "pick one");
    assert_eq!(v.meta, "{}");
    assert_eq!(v.status, 0);
    assert_eq!(v.answers, vec!["red", "green", "blue"]);
    assert!(v.votes.is_empty());
}

#[test]
fn get_unknown_authority_or_index_is_not_found() {
    let mut c = Contract::new();
    assert_eq!(c.get_vote("nft.near".to_string(), 0).err(), Some(VoteError::NotFound));
    new_poll(&mut c, "alice.near", "nft.near", "only");
    assert!(c.get_vote("nft.near".to_string(), 0).is_ok());
    assert_eq!(c.get_vote("nft.near".to_string(), 1).err(), Some(VoteError::NotFound));
    assert_eq!(c.get_vote("strange.near".to_string(), 0).err(), Some(VoteError::NotFound));
}

#[test]
fn pagination_far_past_the_end_is_empty_not_an_error() {
    let mut c = Contract::new();
    for i in 0..3 {
        new_poll(&mut c, "alice.near", "nft.near", &format!("poll {}", i));
    }
    let page = c.get_votes_by_contract("nft.near".to_string(), 10, 1000);
    assert!(page.is_empty());
}

#[test]
fn pagination_clips_at_the_end_and_keeps_order() {
    let mut c = Contract::new();
    for i in 0..3 {
        new_poll(&mut c, "alice.near", "nft.near", &format!("poll {}", i));
    }
    let page = c.get_votes_by_contract("nft.near".to_string(), 10, 1);
    assert_eq!(page.len(), 2);
    assert_eq!(page[0].name, "poll 1");
    assert_eq!(page[1].name, "poll 2");
    let page = c.get_votes_by_contract("nft.near".to_string(), 2, 0);
    assert_eq!(page.len(), 2);
    assert_eq!(page[0].name, "poll 0");
    assert_eq!(page[1].name, "poll 1");
}

#[test]
fn pagination_of_unknown_authority_is_empty() {
    let c = Contract::new();
    assert!(c.get_votes_by_contract("nft.near".to_string(), 10, 0).is_empty());
}

#[test]
fn close_by_stranger_is_unauthorized_and_leaves_status() {
    let mut c = Contract::new();
    let id = new_poll(&mut c, "alice.near", "nft.near", "poll");
    let r = c.close_vote("nft.near".to_string(), id, "mallory.near".to_string());
    assert_eq!(r, Err(VoteError::Unauthorized));
    assert_eq!(c.get_vote("nft.near".to_string(), id).unwrap().status, 0);
}

#[test]
fn close_by_owner_closes_and_reclosing_is_silent() {
    let mut c = Contract::new();
    let id = new_poll(&mut c, "alice.near", "nft.near", "poll");
    assert_eq!(c.close_vote("nft.near".to_string(), id, "alice.near".to_string()), Ok(()));
    assert_eq!(c.get_vote("nft.near".to_string(), id).unwrap().status, 1);
    assert_eq!(c.close_vote("nft.near".to_string(), id, "alice.near".to_string()), Ok(()));
    assert_eq!(c.get_vote("nft.near".to_string(), id).unwrap().status, 1);
}

#[test]
fn close_of_missing_poll_is_not_found() {
    let mut c = Contract::new();
    let r = c.close_vote("nft.near".to_string(), 5, "alice.near".to_string());
    assert_eq!(r, Err(VoteError::NotFound));
}
