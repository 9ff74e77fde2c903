use voting::{VoteError, Voting};

fn with_candidate_x() -> Voting {
    let mut contract = Voting::default();
    contract.set_candidates(vec!["X".to_string()], vec!["secretX".to_string()]);
    contract
}

fn vote(contract: &mut Voting, candidate: &str, voter: &str, secret: &str) -> Result<(), VoteError> {
    contract.vote_for_candidate(candidate.to_string(), voter.to_string(), secret.to_string())
}

#[test]
fn candidate_without_ballots_has_no_votes() {
    let contract = Voting::default();
    assert_eq!(0, contract.total_votes_for("X".to_string()));
    let contract = with_candidate_x();
    assert_eq!(0, contract.total_votes_for("X".to_string()));
    assert_eq!(0, contract.total_votes_for("Y".to_string()));
}

#[test]
fn ballot_counts_once_and_repeat_is_turned_away() {
    let mut contract = with_candidate_x();
    assert_eq!(Ok(()), vote(&mut contract, "X", "v1", "secretX"));
    assert_eq!(1, contract.total_votes_for("X".to_string()));
    assert_eq!(
        Err(VoteError::AlreadyVoted),
        vote(&mut contract, "X", "v1", "secretX")
    );
    assert_eq!(1, contract.total_votes_for("X".to_string()));
}

#[test]
fn wrong_secret_is_turned_away_and_changes_nothing() {
    let mut contract = with_candidate_x();
    assert_eq!(
        Err(VoteError::SecretMismatch),
        vote(&mut contract, "X", "v2", "wrong")
    );
    assert_eq!(0, contract.total_votes_for("X".to_string()));
    // the voter was not marked, so the right secret is still accepted
    assert_eq!(Ok(()), vote(&mut contract, "X", "v2", "secretX"));
    assert_eq!(1, contract.total_votes_for("X".to_string()));
}

#[test]
fn wrong_secret_after_a_vote_leaves_the_tally() {
    let mut contract = with_candidate_x();
    assert_eq!(Ok(()), vote(&mut contract, "X", "v1", "secretX"));
    assert_eq!(
        Err(VoteError::SecretMismatch),
        vote(&mut contract, "X", "v2", "wrong")
    );
    assert_eq!(1, contract.total_votes_for("X".to_string()));
}

#[test]
fn voter_status_is_tested_before_the_secret() {
    let mut contract = with_candidate_x();
    assert_eq!(Ok(()), vote(&mut contract, "X", "v1", "secretX"));
    assert_eq!(
        Err(VoteError::AlreadyVoted),
        vote(&mut contract, "X", "v1", "wrong")
    );
}

#[test]
fn one_ballot_per_voter_across_candidates() {
    let mut contract = Voting::default();
    contract.set_candidates(
        vec!["X".to_string(), "Y".to_string()],
        vec!["secretX".to_string(), "secretY".to_string()],
    );
    assert_eq!(Ok(()), vote(&mut contract, "X", "v1", "secretX"));
    assert_eq!(
        Err(VoteError::AlreadyVoted),
        vote(&mut contract, "Y", "v1", "secretY")
    );
    assert_eq!(1, contract.total_votes_for("X".to_string()));
    assert_eq!(0, contract.total_votes_for("Y".to_string()));
}

#[test]
fn tallies_add_up_per_candidate() {
    let mut contract = Voting::default();
    contract.set_candidates(
        vec!["X".to_string(), "Y".to_string()],
        vec!["secretX".to_string(), "secretY".to_string()],
    );
    assert_eq!(Ok(()), vote(&mut contract, "X", "v1", "secretX"));
    assert_eq!(Ok(()), vote(&mut contract, "Y", "v2", "secretY"));
    assert_eq!(Ok(()), vote(&mut contract, "X", "v3", "secretX"));
    assert_eq!(Ok(()), vote(&mut contract, "X", "v4", "secretX"));
    assert_eq!(3, contract.total_votes_for("X".to_string()));
    assert_eq!(1, contract.total_votes_for("Y".to_string()));
}

#[test]
fn secret_of_another_candidate_is_a_mismatch() {
    let mut contract = Voting::default();
    contract.set_candidates(
        vec!["X".to_string(), "Y".to_string()],
        vec!["secretX".to_string(), "secretY".to_string()],
    );
    assert_eq!(
        Err(VoteError::SecretMismatch),
        vote(&mut contract, "X", "v1", "secretY")
    );
    assert_eq!(
        Err(VoteError::SecretMismatch),
        vote(&mut contract, "X", "v1", "")
    );
    assert_eq!(
        Err(VoteError::SecretMismatch),
        vote(&mut contract, "X", "v1", "secretx")
    );
}

#[test]
fn reset_clears_tallies_and_lets_voters_vote_again() {
    let mut contract = with_candidate_x();
    assert_eq!(Ok(()), vote(&mut contract, "X", "v1", "secretX"));
    assert_eq!(Ok(()), vote(&mut contract, "X", "v2", "secretX"));
    assert_eq!(2, contract.total_votes_for("X".to_string()));
    contract.reset_votes();
    assert_eq!(0, contract.total_votes_for("X".to_string()));
    assert_eq!(Ok(()), vote(&mut contract, "X", "v1", "secretX"));
    assert_eq!(1, contract.total_votes_for("X".to_string()));
}

#[test]
fn reset_twice_is_reset_once() {
    let mut contract = with_candidate_x();
    assert_eq!(Ok(()), vote(&mut contract, "X", "v1", "secretX"));
    contract.reset_votes();
    contract.reset_votes();
    assert_eq!(0, contract.total_votes_for("X".to_string()));
    assert_eq!(Ok(()), vote(&mut contract, "X", "v1", "secretX"));
    assert_eq!(
        Err(VoteError::AlreadyVoted),
        vote(&mut contract, "X", "v1", "secretX")
    );
    assert_eq!(1, contract.total_votes_for("X".to_string()));
}

#[test]
fn reset_of_a_fresh_ledger_changes_nothing() {
    let mut contract = Voting::default();
    contract.reset_votes();
    assert_eq!(0, contract.total_votes_for("X".to_string()));
    assert_eq!("Hello", contract.get_greeting("bob_near".to_string()));
}

#[test]
fn candidates_survive_a_reset() {
    let mut contract = with_candidate_x();
    contract.reset_votes();
    assert_eq!(
        Err(VoteError::SecretMismatch),
        vote(&mut contract, "X", "v1", "")
    );
    assert_eq!(Ok(()), vote(&mut contract, "X", "v1", "secretX"));
    assert_eq!(1, contract.total_votes_for("X".to_string()));
}

#[test]
fn unregistered_candidate_takes_the_empty_secret() {
    let mut contract = Voting::default();
    assert_eq!(Ok(()), vote(&mut contract, "nobody", "v1", ""));
    assert_eq!(1, contract.total_votes_for("nobody".to_string()));
    assert_eq!(
        Err(VoteError::AlreadyVoted),
        vote(&mut contract, "nobody", "v1", "")
    );
}

#[test]
fn unregistered_candidate_refuses_any_other_secret() {
    let mut contract = with_candidate_x();
    assert_eq!(
        Err(VoteError::SecretMismatch),
        vote(&mut contract, "nobody", "v1", "secretX")
    );
    assert_eq!(0, contract.total_votes_for("nobody".to_string()));
}

#[test]
fn registering_again_replaces_the_secret() {
    let mut contract = with_candidate_x();
    contract.set_candidates(vec!["X".to_string()], vec!["newer".to_string()]);
    assert_eq!(
        Err(VoteError::SecretMismatch),
        vote(&mut contract, "X", "v1", "secretX")
    );
    assert_eq!(Ok(()), vote(&mut contract, "X", "v1", "newer"));
}

#[test]
fn registering_again_keeps_the_tally() {
    let mut contract = with_candidate_x();
    assert_eq!(Ok(()), vote(&mut contract, "X", "v1", "secretX"));
    contract.set_candidates(vec!["X".to_string()], vec!["newer".to_string()]);
    assert_eq!(1, contract.total_votes_for("X".to_string()));
    assert_eq!(
        Err(VoteError::AlreadyVoted),
        vote(&mut contract, "X", "v1", "newer")
    );
    assert_eq!(Ok(()), vote(&mut contract, "X", "v2", "newer"));
    assert_eq!(2, contract.total_votes_for("X".to_string()));
}

#[test]
fn name_given_twice_keeps_its_last_secret() {
    let mut contract = Voting::default();
    contract.set_candidates(
        vec!["X".to_string(), "Y".to_string(), "X".to_string()],
        vec!["first".to_string(), "secretY".to_string(), "last".to_string()],
    );
    assert_eq!(
        Err(VoteError::SecretMismatch),
        vote(&mut contract, "X", "v1", "first")
    );
    assert_eq!(Ok(()), vote(&mut contract, "X", "v1", "last"));
    assert_eq!(Ok(()), vote(&mut contract, "Y", "v2", "secretY"));
}

#[test]
fn secrets_beyond_the_names_are_not_read() {
    let mut contract = Voting::default();
    contract.set_candidates(
        vec!["X".to_string()],
        vec!["secretX".to_string(), "spare".to_string()],
    );
    assert_eq!(
        Err(VoteError::SecretMismatch),
        vote(&mut contract, "X", "v1", "spare")
    );
    assert_eq!(Ok(()), vote(&mut contract, "X", "v1", "secretX"));
}

#[test]
fn no_names_register_nothing() {
    let mut contract = with_candidate_x();
    contract.set_candidates(Vec::new(), Vec::new());
    assert_eq!(Ok(()), vote(&mut contract, "X", "v1", "secretX"));
    assert_eq!(
        Err(VoteError::SecretMismatch),
        vote(&mut contract, "Y", "v2", "secretY")
    );
}

#[test]
fn candidate_registered_with_empty_secret() {
    let mut contract = Voting::default();
    contract.set_candidates(vec!["X".to_string()], vec![String::new()]);
    assert_eq!(
        Err(VoteError::SecretMismatch),
        vote(&mut contract, "X", "v1", "secretX")
    );
    assert_eq!(Ok(()), vote(&mut contract, "X", "v1", ""));
}

#[test]
fn voter_and_candidate_names_are_kept_apart() {
    let mut contract = with_candidate_x();
    // a voter may carry a candidate's name
    assert_eq!(Ok(()), vote(&mut contract, "X", "X", "secretX"));
    assert_eq!(Ok(()), vote(&mut contract, "X", "v1", "secretX"));
    assert_eq!(2, contract.total_votes_for("X".to_string()));
    assert_eq!(0, contract.total_votes_for("v1".to_string()));
}

#[test]
fn as_many_votes_as_voters_who_voted() {
    let mut contract = Voting::default();
    contract.set_candidates(
        vec!["X".to_string(), "Y".to_string()],
        vec!["secretX".to_string(), "secretY".to_string()],
    );
    let ballots = [
        ("X", "v1", "secretX"),
        ("Y", "v2", "secretY"),
        ("X", "v1", "secretX"),
        ("Y", "v3", "wrong"),
        ("nobody", "v4", ""),
        ("Y", "v1", "secretY"),
        ("X", "v5", "secretX"),
    ];
    let mut accepted: u32 = 0;
    for (candidate, voter, secret) in ballots {
        if vote(&mut contract, candidate, voter, secret).is_ok() {
            accepted += 1;
        }
    }
    assert_eq!(4, accepted);
    let counted = contract.total_votes_for("X".to_string())
        + contract.total_votes_for("Y".to_string())
        + contract.total_votes_for("nobody".to_string());
    assert_eq!(4, counted);
    assert_eq!(2, contract.total_votes_for("X".to_string()));
    assert_eq!(1, contract.total_votes_for("Y".to_string()));
    assert_eq!(1, contract.total_votes_for("nobody".to_string()));
}

#[test]
fn error_messages() {
    assert_eq!("voter already voted", VoteError::AlreadyVoted.message());
    assert_eq!("signed_message not true", VoteError::SecretMismatch.message());
}
