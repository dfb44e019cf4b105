use markov_bot::front::{
    is_allowed, needs_membership, prune_due, refusal, should_learn, Command, Membership,
};

const MEMBER: Membership = Membership { is_administrator: false, is_creator: false };
const ADMIN: Membership = Membership { is_administrator: true, is_creator: false };
const CREATOR: Membership = Membership { is_administrator: false, is_creator: true };

#[test]
fn private_chats_allow_everything() {
    for command in [Command::Speak, Command::ToggleLearning, Command::ClearData].iter() {
        assert!(is_allowed(*command, true, None));
        assert!(is_allowed(*command, true, Some(MEMBER)));
    }
    assert!(!needs_membership(true, true));
    assert!(!needs_membership(true, false));
}

#[test]
fn a_message_without_sender_is_allowed() {
    assert!(!needs_membership(false, false));
    assert!(needs_membership(false, true));
    assert!(is_allowed(Command::ToggleLearning, false, None));
    assert!(is_allowed(Command::ClearData, false, None));
}

#[test]
fn groups_restrict_toggling_to_admins_and_the_creator() {
    assert!(!is_allowed(Command::ToggleLearning, false, Some(MEMBER)));
    assert!(is_allowed(Command::ToggleLearning, false, Some(ADMIN)));
    assert!(is_allowed(Command::ToggleLearning, false, Some(CREATOR)));
}

#[test]
fn groups_restrict_clearing_to_the_creator() {
    assert!(!is_allowed(Command::ClearData, false, Some(MEMBER)));
    assert!(!is_allowed(Command::ClearData, false, Some(ADMIN)));
    assert!(is_allowed(Command::ClearData, false, Some(CREATOR)));
}

#[test]
fn anyone_may_ask_for_a_phrase() {
    assert!(is_allowed(Command::Speak, false, Some(MEMBER)));
    assert_eq!(refusal(Command::Speak), None);
}

#[test]
fn refusals_name_who_may() {
    assert_eq!(
        refusal(Command::ToggleLearning),
        Some("[only the chat owner and admins can do that]".to_string())
    );
    assert_eq!(refusal(Command::ClearData), Some("[only the chat owner can do that]".to_string()));
}

#[test]
fn only_named_senders_are_learned_from() {
    assert!(should_learn(true, true));
    assert!(!should_learn(true, false));
    assert!(!should_learn(false, true));
    assert!(!should_learn(false, false));
}

#[test]
fn pruning_is_due_after_the_interval() {
    assert!(!prune_due(100, 100, 15));
    assert!(!prune_due(100, 115, 15));
    assert!(prune_due(100, 116, 15));
    assert!(!prune_due(100, 50, 15));
    assert!(prune_due(0, u64::MAX, u64::MAX - 1));
    assert!(!prune_due(0, u64::MAX, u64::MAX));
}
