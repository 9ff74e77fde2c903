//! What holds of the ledger whatever the calls are.

use crate::model::{last_position, Call, Ledger};
use crate::rules::{Text, VoteError};
use vstd::prelude::*;

verus! {

/// An account that never stored a greeting is greeted with `"Hello"`,
/// whatever else was called since the ledger was made.
pub proof fn law_greeting_defaults_to_hello(calls: Seq<Call>, account: Text)
    requires
        forall|at: int| 0 <= at < calls.len() ==> !(#[trigger] calls[at]).stores_greeting_of(account),
    ensures
        !Ledger::empty().after_all(calls).greetings.contains_key(account),
        Ledger::empty().after_all(calls).greeting(account) == "Hello"@,
    decreases calls.len(),
{
    if calls.len() > 0 {
        let earlier = calls.drop_last();
        assert forall|at: int| 0 <= at < earlier.len() implies !(#[trigger] earlier[at]).stores_greeting_of(
            account,
        ) by {
            assert(earlier[at] == calls[at]);
        }
        law_greeting_defaults_to_hello(earlier, account);
        assert(!calls[calls.len() - 1].stores_greeting_of(account));
    }
}

/// The greeting of an account is the last one it stored.
pub proof fn law_greeting_last_write_wins(
    ledger: Ledger,
    account: Text,
    first: Text,
    second: Text,
)
    ensures
        ledger.set_greeting(account, first).greeting(account) == first,
        ledger.set_greeting(account, first).set_greeting(account, second).greeting(account)
            == second,
{
}

/// Storing a greeting changes the greeting of no other account.
pub proof fn law_greeting_is_per_account(
    ledger: Ledger,
    account: Text,
    message: Text,
    other: Text,
)
    requires
        other != account,
    ensures
        ledger.set_greeting(account, message).greeting(other) == ledger.greeting(other),
{
}

/// The two features share nothing: storing a greeting changes nothing of the
/// election, and no call of the election changes a greeting.
pub proof fn law_features_are_independent(ledger: Ledger, call: Call)
    ensures
        call is SetGreeting ==> {
            &&& ledger.after(call).valid_candidates == ledger.valid_candidates
            &&& ledger.after(call).secrets == ledger.secrets
            &&& ledger.after(call).tallies == ledger.tallies
            &&& ledger.after(call).voter_status == ledger.voter_status
        },
        !(call is SetGreeting) ==> ledger.after(call).greetings == ledger.greetings,
{
}

/// A candidate for whom no ballot was ever cast has no votes, whatever else
/// was called since the ledger was made.
pub proof fn law_no_ballot_no_votes(calls: Seq<Call>, candidate: Text)
    requires
        forall|at: int| 0 <= at < calls.len() ==> !(#[trigger] calls[at]).is_ballot_for(candidate),
    ensures
        !Ledger::empty().after_all(calls).tallies.contains_key(candidate),
        Ledger::empty().after_all(calls).votes_for(candidate) == 0,
    decreases calls.len(),
{
    if calls.len() > 0 {
        let earlier = calls.drop_last();
        assert forall|at: int| 0 <= at < earlier.len() implies !(#[trigger] earlier[at]).is_ballot_for(
            candidate,
        ) by {
            assert(earlier[at] == calls[at]);
        }
        law_no_ballot_no_votes(earlier, candidate);
        assert(!calls[calls.len() - 1].is_ballot_for(candidate));
    }
}

/// An accepted ballot counts once: the candidate has exactly one vote more,
/// every other tally is as it was, and the voter is marked.
pub proof fn law_accepted_ballot_counts_once(
    ledger: Ledger,
    candidate: Text,
    voter: Text,
    submitted: Text,
    other: Text,
)
    requires
        ledger.verdict(candidate, voter, submitted) is Ok,
    ensures
        ledger.vote_for_candidate(candidate, voter, submitted).votes_for(candidate)
            == ledger.votes_for(candidate) + 1,
        other != candidate ==> ledger.vote_for_candidate(candidate, voter, submitted).votes_for(
            other,
        ) == ledger.votes_for(other),
        ledger.vote_for_candidate(candidate, voter, submitted).voted(voter),
        other != voter ==> ledger.vote_for_candidate(candidate, voter, submitted).voted(other)
            == ledger.voted(other),
{
}

/// A ballot that is turned away changes nothing.
pub proof fn law_rejected_ballot_changes_nothing(
    ledger: Ledger,
    candidate: Text,
    voter: Text,
    submitted: Text,
)
    requires
        ledger.verdict(candidate, voter, submitted) is Err,
    ensures
        ledger.vote_for_candidate(candidate, voter, submitted) == ledger,
{
}

/// A voter has one ballot in a round: once one was accepted, every further
/// one is turned away, whomever it is for and whatever it carries, and
/// changes nothing.
pub proof fn law_one_ballot_per_voter(
    ledger: Ledger,
    candidate: Text,
    voter: Text,
    submitted: Text,
    next_candidate: Text,
    next_submitted: Text,
)
    requires
        ledger.verdict(candidate, voter, submitted) is Ok,
    ensures
        ({
            let counted = ledger.vote_for_candidate(candidate, voter, submitted);
            &&& counted.verdict(next_candidate, voter, next_submitted) == Err::<(), VoteError>(
                VoteError::AlreadyVoted,
            )
            &&& counted.vote_for_candidate(next_candidate, voter, next_submitted) == counted
        }),
{
}

/// Between two resets a voter's mark stays and no tally goes down.
pub proof fn law_round_only_grows(ledger: Ledger, call: Call, voter: Text, candidate: Text)
    requires
        !(call is ResetVotes),
    ensures
        ledger.voted(voter) ==> ledger.after(call).voted(voter),
        ledger.votes_for(candidate) <= ledger.after(call).votes_for(candidate),
{
}

/// After a reset no candidate has a vote and no voter is marked, so that
/// nobody's ballot is turned away for having voted.
pub proof fn law_reset_clears_round(
    ledger: Ledger,
    candidate: Text,
    voter: Text,
    submitted: Text,
)
    ensures
        ledger.reset_votes().votes_for(candidate) == 0,
        !ledger.reset_votes().voted(voter),
        ledger.reset_votes().verdict(candidate, voter, submitted) != Err::<(), VoteError>(
            VoteError::AlreadyVoted,
        ),
        ledger.reset_votes().verdict(candidate, voter, ledger.secret(candidate)) is Ok,
{
}

/// Resetting twice is resetting once.
pub proof fn law_reset_is_idempotent(ledger: Ledger)
    ensures
        ledger.reset_votes().reset_votes() == ledger.reset_votes(),
{
}

/// A reset leaves greetings, candidates and secrets as they were.
pub proof fn law_reset_keeps_registrations(ledger: Ledger, account: Text, name: Text)
    ensures
        ledger.reset_votes().greeting(account) == ledger.greeting(account),
        ledger.reset_votes().is_candidate(name) == ledger.is_candidate(name),
        ledger.reset_votes().secret(name) == ledger.secret(name),
{
}

/// Where `name` stands in `names`, its last position is one at which it
/// stands and after which it does not; where it does not, there is none.
pub proof fn law_last_position(names: Seq<Text>, name: Text)
    ensures
        names.contains(name) ==> 0 <= last_position(names, name) < names.len(),
        names.contains(name) ==> names[last_position(names, name)] == name,
        forall|later: int|
            last_position(names, name) < later < names.len() ==> #[trigger] names[later] != name,
        !names.contains(name) ==> last_position(names, name) == -1,
    decreases names.len(),
{
    if names.len() > 0 {
        let earlier = names.drop_last();
        law_last_position(earlier, name);
        if names.last() != name {
            if names.contains(name) {
                let at = choose|at: int| 0 <= at < names.len() && names[at] == name;
                assert(earlier[at] == name);
            }
            if earlier.contains(name) {
                assert(names[last_position(earlier, name)] == name);
            }
            assert forall|later: int|
                last_position(names, name) < later < names.len() implies #[trigger] names[later]
                != name by {
                if later < earlier.len() {
                    assert(earlier[later] == names[later]);
                }
            }
        }
    }
}

/// After `set_candidates` every given name is a candidate whose secret is
/// the one given at the name's last position, which is its own position where
/// the name is not given again; what was registered under a name that was not
/// given is as it was.
pub proof fn law_set_candidates_registers(
    ledger: Ledger,
    names: Seq<Text>,
    secrets: Seq<Text>,
    at: int,
    other: Text,
)
    requires
        0 <= at < names.len(),
    ensures
        ledger.set_candidates(names, secrets).is_candidate(names[at]),
        ledger.set_candidates(names, secrets).secret(names[at]) == secrets[last_position(
            names,
            names[at],
        )],
        (forall|later: int| at < later < names.len() ==> names[later] != names[at])
            ==> last_position(names, names[at]) == at,
        !names.contains(other) ==> {
            &&& ledger.set_candidates(names, secrets).is_candidate(other) == ledger.is_candidate(
                other,
            )
            &&& ledger.set_candidates(names, secrets).secret(other) == ledger.secret(other)
        },
{
    law_last_position(names, names[at]);
    assert(names.contains(names[at]));
}

/// A name is a candidate exactly where a secret is kept for it, whatever was
/// called since the ledger was made.
pub proof fn law_candidates_are_the_names_with_secrets(calls: Seq<Call>, name: Text)
    ensures
        Ledger::empty().after_all(calls).is_candidate(name) == Ledger::empty().after_all(
            calls,
        ).secrets.contains_key(name),
        Ledger::empty().after_all(calls).is_candidate(name) == Ledger::empty().after_all(
            calls,
        ).valid_candidates.contains_key(name),
    decreases calls.len(),
{
    if calls.len() > 0 {
        law_candidates_are_the_names_with_secrets(calls.drop_last(), name);
    }
}

/// Only the empty secret can stand for a registration: a ballot that carries
/// any other secret is accepted for registered candidates alone.
pub proof fn law_secret_needs_registration(
    calls: Seq<Call>,
    candidate: Text,
    voter: Text,
    submitted: Text,
)
    requires
        submitted.len() > 0,
        Ledger::empty().after_all(calls).verdict(candidate, voter, submitted) is Ok,
    ensures
        Ledger::empty().after_all(calls).is_candidate(candidate),
        Ledger::empty().after_all(calls).secret(candidate) == submitted,
{
    law_candidates_are_the_names_with_secrets(calls, candidate);
}

/// Candidates survive a reset: in the round that follows it, a ballot that
/// carries the secret a candidate was registered with is accepted, whoever
/// casts it.
pub proof fn law_candidates_survive_reset(
    ledger: Ledger,
    names: Seq<Text>,
    secrets: Seq<Text>,
    at: int,
    voter: Text,
)
    requires
        0 <= at < names.len(),
    ensures
        ledger.set_candidates(names, secrets).reset_votes().is_candidate(names[at]),
        ledger.set_candidates(names, secrets).reset_votes().verdict(
            names[at],
            voter,
            secrets[last_position(names, names[at])],
        ) is Ok,
        (forall|later: int| at < later < names.len() ==> names[later] != names[at])
            ==> ledger.set_candidates(names, secrets).reset_votes().verdict(
            names[at],
            voter,
            secrets[at],
        ) is Ok,
{
    law_set_candidates_registers(ledger, names, secrets, at, names[at]);
}

} // verus!
