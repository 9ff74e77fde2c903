use voting::rules::{greeting_or_default, greeting_record};
use voting::Voting;

#[test]
fn set_then_get_greeting() {
    let mut contract = Voting::default();
    contract.set_greeting("bob_near".to_string(), "howdy".to_string());
    assert_eq!(
        "howdy".to_string(),
        contract.get_greeting("bob_near".to_string())
    );
}

#[test]
fn get_default_greeting() {
    let contract = Voting::default();
    // no greeting was stored, so the default one is returned
    assert_eq!(
        "Hello".to_string(),
        contract.get_greeting("francis.near".to_string())
    );
}

#[test]
fn second_greeting_replaces_first() {
    let mut contract = Voting::default();
    contract.set_greeting("bob_near".to_string(), "howdy".to_string());
    contract.set_greeting("bob_near".to_string(), "good evening".to_string());
    assert_eq!(
        "good evening".to_string(),
        contract.get_greeting("bob_near".to_string())
    );
}

#[test]
fn greeting_belongs_to_one_account() {
    let mut contract = Voting::default();
    contract.set_greeting("bob_near".to_string(), "howdy".to_string());
    contract.set_greeting("alice_near".to_string(), "hi".to_string());
    assert_eq!("howdy", contract.get_greeting("bob_near".to_string()));
    assert_eq!("hi", contract.get_greeting("alice_near".to_string()));
    assert_eq!("Hello", contract.get_greeting("carol_near".to_string()));
}

#[test]
fn empty_greeting_is_kept() {
    let mut contract = Voting::default();
    contract.set_greeting("bob_near".to_string(), String::new());
    assert_eq!("", contract.get_greeting("bob_near".to_string()));
}

#[test]
fn account_names_are_compared_exactly() {
    let mut contract = Voting::default();
    contract.set_greeting("bob_near".to_string(), "howdy".to_string());
    assert_eq!("Hello", contract.get_greeting("Bob_near".to_string()));
    assert_eq!("Hello", contract.get_greeting("bob_near ".to_string()));
    assert_eq!("Hello", contract.get_greeting(String::new()));
}

#[test]
fn set_greeting_returns_its_log_record() {
    let mut contract = Voting::default();
    let record = contract.set_greeting("bob_near".to_string(), "howdy".to_string());
    assert_eq!("Saving greeting 'howdy' for account 'bob_near'", record);
}

#[test]
fn log_record_quotes_message_then_account() {
    let record = greeting_record(&"good day".to_string(), &"francis.near".to_string());
    assert_eq!("Saving greeting 'good day' for account 'francis.near'", record);
    let bare = greeting_record(&String::new(), &String::new());
    assert_eq!("Saving greeting '' for account ''", bare);
}

#[test]
fn stored_greeting_or_hello() {
    let stored = "howdy".to_string();
    assert_eq!("howdy", greeting_or_default(Some(&stored)));
    assert_eq!("Hello", greeting_or_default(None));
}

#[test]
fn greetings_survive_a_reset() {
    let mut contract = Voting::default();
    contract.set_greeting("bob_near".to_string(), "howdy".to_string());
    contract.reset_votes();
    assert_eq!("howdy", contract.get_greeting("bob_near".to_string()));
}

#[test]
fn greetings_and_election_share_no_entries() {
    let mut contract = Voting::default();
    contract.set_greeting("X".to_string(), "secretX".to_string());
    assert_eq!(0, contract.total_votes_for("X".to_string()));
    contract.set_candidates(vec!["bob_near".to_string()], vec!["s".to_string()]);
    assert_eq!("Hello", contract.get_greeting("bob_near".to_string()));
    assert_eq!("secretX", contract.get_greeting("X".to_string()));
}
