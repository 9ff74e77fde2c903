//! The ledger held in memory.

use crate::model::{lemma_set_candidates_next, Ledger};
use crate::rules::{
    check_ballot, greeting_or_default, greeting_record, greeting_record_text, next_tally,
    votes_or_zero, Text, VoteError,
};
use vstd::hash_map::StringHashMap;
use vstd::prelude::*;

verus! {

/// The strings of a vector as contracts see them.
pub open spec fn texts(strings: Seq<String>) -> Seq<Text> {
    strings.map_values(|text: String| text@)
}

/// A greeting register and an election, each call of which runs to its end
/// before the next begins.
pub struct Voting {
    records: StringHashMap<String>,
    votes_received: StringHashMap<u32>,
    candidate_hash: StringHashMap<String>,
    voter_status: StringHashMap<bool>,
    valid_candidates: StringHashMap<bool>,
}

impl View for Voting {
    type V = Ledger;

    closed spec fn view(&self) -> Ledger {
        Ledger {
            greetings: self.records@.map_values(|text: String| text@),
            valid_candidates: self.valid_candidates@,
            secrets: self.candidate_hash@.map_values(|text: String| text@),
            tallies: self.votes_received@.map_values(|votes: u32| votes as nat),
            voter_status: self.voter_status@,
        }
    }
}

impl Default for Voting {
    /// The ledger in which nothing was stored yet.
    fn default() -> (ledger: Self)
        ensures
            ledger@ == Ledger::empty(),
    {
        let ledger = Voting {
            records: StringHashMap::new(),
            votes_received: StringHashMap::new(),
            candidate_hash: StringHashMap::new(),
            voter_status: StringHashMap::new(),
            valid_candidates: StringHashMap::new(),
        };
        assert(ledger@.greetings =~= Map::empty());
        assert(ledger@.secrets =~= Map::empty());
        assert(ledger@.tallies =~= Map::empty());
        ledger
    }
}

impl Voting {
    /// Stores `message` as the greeting of `caller` and returns the record
    /// of it that belongs in the log.
    pub fn set_greeting(&mut self, caller: String, message: String) -> (record: String)
        ensures
            final(self)@ == old(self)@.set_greeting(caller@, message@),
            record@ == greeting_record_text(message@, caller@),
    {
        let record = greeting_record(&message, &caller);
        self.records.insert(caller, message);
        assert(self@.greetings =~= old(self)@.greetings.insert(caller@, message@));
        record
    }

    /// The greeting of `account_id`: the last one it stored, or `"Hello"`.
    pub fn get_greeting(&self, account_id: String) -> (greeting: String)
        ensures
            greeting@ == self@.greeting(account_id@),
    {
        greeting_or_default(self.records.get(account_id.as_str()))
    }

    /// Registers each name with the secret at its own position, in order, so
    /// that a name given twice keeps its last secret. Secrets beyond the last
    /// name are not read.
    pub fn set_candidates(&mut self, candidate_names: Vec<String>, candidate_hashes: Vec<String>)
        requires
            candidate_names.len() <= candidate_hashes.len(),
        ensures
            final(self)@ == old(self)@.set_candidates(
                texts(candidate_names@),
                texts(candidate_hashes@),
            ),
    {
        let ghost names = texts(candidate_names@);
        let ghost secrets = texts(candidate_hashes@);
        assert(names.take(0) =~= Seq::empty());
        proof {
            let start = self@.set_candidates(names.take(0), secrets);
            assert(self@.valid_candidates =~= start.valid_candidates);
            assert(self@.secrets =~= start.secrets);
        }
        let mut done: usize = 0;
        while done < candidate_names.len()
            invariant
                done <= candidate_names.len() <= candidate_hashes.len(),
                names == texts(candidate_names@),
                secrets == texts(candidate_hashes@),
                self@ == old(self)@.set_candidates(names.take(done as int), secrets),
            decreases candidate_names.len() - done,
        {
            let name = candidate_names[done].clone();
            let secret = candidate_hashes[done].clone();
            self.valid_candidates.insert(name.clone(), true);
            self.candidate_hash.insert(name, secret);
            proof {
                lemma_set_candidates_next(old(self)@, names, secrets, done as int);
                let next = old(self)@.set_candidates(names.take(done as int + 1), secrets);
                assert(self@.valid_candidates =~= next.valid_candidates);
                assert(self@.secrets =~= next.secrets);
            }
            done = done + 1;
        }
        assert(names.take(done as int) =~= names);
    }

    /// The votes counted for `candidate` since the last reset.
    pub fn total_votes_for(&self, candidate: String) -> (votes: u32)
        ensures
            votes == self@.votes_for(candidate@),
    {
        votes_or_zero(self.votes_received.get(candidate.as_str()))
    }

    /// Begins a new round: every tally and every voter's mark is removed,
    /// while greetings and candidates stay as they are.
    pub fn reset_votes(&mut self)
        ensures
            final(self)@ == old(self)@.reset_votes(),
    {
        self.votes_received.clear();
        self.voter_status.clear();
        assert(self@.tallies =~= Map::empty());
    }

    /// Casts the ballot of `voter` for `candidate`.
    ///
    /// The ballot is turned away where the voter has voted in this round, and
    /// otherwise where `signed_message` is not the candidate's secret; a
    /// candidate that was never registered has the empty secret. A ballot that
    /// is turned away changes nothing. One that is accepted adds one vote to
    /// the candidate's tally and marks the voter.
    pub fn vote_for_candidate(
        &mut self,
        candidate: String,
        voter: String,
        signed_message: String,
    ) -> (outcome: Result<(), VoteError>)
        requires
            old(self)@.verdict(candidate@, voter@, signed_message@) is Ok
                ==> old(self)@.votes_for(candidate@) < u32::MAX,
        ensures
            outcome == old(self)@.verdict(candidate@, voter@, signed_message@),
            final(self)@ == old(self)@.vote_for_candidate(candidate@, voter@, signed_message@),
    {
        let verdict = check_ballot(
            self.voter_status.get(voter.as_str()),
            self.candidate_hash.get(candidate.as_str()),
            &signed_message,
        );
        if verdict.is_ok() {
            let votes: u32 = next_tally(self.votes_received.get(candidate.as_str()));
            self.votes_received.insert(candidate, votes);
            self.voter_status.insert(voter, true);
            assert(self@.tallies =~= old(self)@.count_vote(candidate@, voter@).tallies);
        }
        verdict
    }
}

} // verus!
