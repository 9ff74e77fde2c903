//! The rules on single entries: what stands for an entry that was never
//! written, and the test a ballot passes before it is counted.
//!
//! Every function here goes from plain values to plain values, so that the
//! same rules serve a ledger held in memory and one whose entries a host
//! keeps.

use vstd::prelude::*;

verus! {

/// A string as contracts see it.
pub type Text = Seq<char>;

/// Why a ballot is turned away.
#[derive(Clone, Copy, Debug, PartialEq, Eq, Structural)]
pub enum VoteError {
    /// The voter has cast a ballot since the tallies were last reset.
    AlreadyVoted,
    /// The submitted secret is not the one registered for the candidate.
    SecretMismatch,
}

impl VoteError {
    /// The text that a caller is shown for this error.
    pub open spec fn text(self) -> Text {
        match self {
            VoteError::AlreadyVoted => "voter already voted"@,
            VoteError::SecretMismatch => "signed_message not true"@,
        }
    }

    /// The text that a caller is shown for this error.
    pub fn message(&self) -> (message: String)
        ensures
            message@ == self.text(),
    {
        match self {
            VoteError::AlreadyVoted => "voter already voted".to_owned(),
            VoteError::SecretMismatch => "signed_message not true".to_owned(),
        }
    }
}

/// What a stored string says, if there is one.
pub open spec fn stored_text(stored: Option<&String>) -> Option<Text> {
    match stored {
        Some(text) => Some(text@),
        None => None,
    }
}

/// What a stored value is, if there is one.
pub open spec fn stored_value<T>(stored: Option<&T>) -> Option<T> {
    match stored {
        Some(value) => Some(*value),
        None => None,
    }
}

/// The greeting of an account: the one it stored, or `"Hello"`.
pub open spec fn greeting_of(stored: Option<Text>) -> Text {
    match stored {
        Some(greeting) => greeting,
        None => "Hello"@,
    }
}

/// The votes of a candidate: the stored count, or none.
pub open spec fn tally_of(stored: Option<u32>) -> nat {
    match stored {
        Some(votes) => votes as nat,
        None => 0,
    }
}

/// Whether a voter's stored flag says that a ballot was cast.
pub open spec fn has_voted(stored: Option<bool>) -> bool {
    stored == Some(true)
}

/// The secret a ballot for a candidate must carry: the registered one, or
/// the empty string for a candidate that was never registered.
pub open spec fn secret_of(stored: Option<Text>) -> Text {
    match stored {
        Some(secret) => secret,
        None => Seq::empty(),
    }
}

/// The outcome of a ballot. The voter's status is tested first, so a voter who
/// has voted learns nothing about the secret.
pub open spec fn ballot_verdict(
    status: Option<bool>,
    registered: Option<Text>,
    submitted: Text,
) -> Result<(), VoteError> {
    if has_voted(status) {
        Err(VoteError::AlreadyVoted)
    } else if submitted != secret_of(registered) {
        Err(VoteError::SecretMismatch)
    } else {
        Ok(())
    }
}

/// The record that is written to the log when `caller` stores `message`.
pub open spec fn greeting_record_text(message: Text, caller: Text) -> Text {
    "Saving greeting '"@ + message + "' for account '"@ + caller + "'"@
}

/// Reads an account's greeting out of its stored entry.
pub fn greeting_or_default(stored: Option<&String>) -> (greeting: String)
    ensures
        greeting@ == greeting_of(stored_text(stored)),
{
    match stored {
        Some(greeting) => greeting.clone(),
        None => "Hello".to_owned(),
    }
}

/// Reads a candidate's votes out of its stored entry.
pub fn votes_or_zero(stored: Option<&u32>) -> (votes: u32)
    ensures
        votes == tally_of(stored_value(stored)),
{
    match stored {
        Some(votes) => *votes,
        None => 0,
    }
}

/// Builds the log record for a stored greeting.
pub fn greeting_record(message: &String, caller: &String) -> (record: String)
    ensures
        record@ == greeting_record_text(message@, caller@),
{
    let mut record = "Saving greeting '".to_owned();
    record.append(message.as_str());
    record.append("' for account '");
    record.append(caller.as_str());
    record.append("'");
    record
}

/// Decides a ballot from the voter's stored flag and the candidate's stored
/// secret.
pub fn check_ballot(
    status: Option<&bool>,
    registered: Option<&String>,
    submitted: &String,
) -> (verdict: Result<(), VoteError>)
    ensures
        verdict == ballot_verdict(stored_value(status), stored_text(registered), submitted@),
{
    let voted = match status {
        Some(flag) => *flag,
        None => false,
    };
    if voted {
        return Err(VoteError::AlreadyVoted);
    }
    let matches = match registered {
        Some(secret) => *secret == *submitted,
        None => submitted.as_str().is_empty(),
    };
    assert(matches <==> submitted@ =~= secret_of(stored_text(registered)));
    if matches {
        Ok(())
    } else {
        Err(VoteError::SecretMismatch)
    }
}

/// The count to store for a candidate whose ballot was accepted: one more
/// than its stored entry says.
pub fn next_tally(stored: Option<&u32>) -> (votes: u32)
    requires
        tally_of(stored_value(stored)) < u32::MAX,
    ensures
        votes == tally_of(stored_value(stored)) + 1,
{
    votes_or_zero(stored) + 1
}

} // verus!
