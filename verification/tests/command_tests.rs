use opbot::auth::Role;
use opbot::command::{mutation_outcome, outcome_message, plan_command, CommandOutcome, CommandStep,
    Direction, MembershipFetch, MutationOutcome, RetrievalError};
use opbot::config::Config;

fn config_from(role_id: &str, allow: &str) -> Config {
    Config::resolve(Some(role_id), None, Some(allow)).unwrap()
}

fn role(id: u64, name: &str) -> Role {
    Role { id, name: String::from(name) }
}

#[test]
fn unauthorized_requester_is_denied_without_mutation() {
    let config = config_from("718954921353019454.0", "");
    let membership = MembershipFetch::Retrieved(vec![role(1, "Member")]);
    let step = plan_command(Direction::Grant, 42, &membership, &config);
    assert_eq!(step, CommandStep::Deny);
    let message = outcome_message(&CommandOutcome::Denied, "alice");
    assert_eq!(message, "You do not have permission to run this command.");
}

#[test]
fn operator_role_holder_gets_grant_applied() {
    let config = config_from("718954921353019454.0", "");
    let membership = MembershipFetch::Retrieved(vec![role(1, "Operator")]);
    let step = plan_command(Direction::Grant, 42, &membership, &config);
    assert_eq!(step, CommandStep::Apply(Direction::Grant, 718954921353019454));
    let outcome = CommandOutcome::Mutated(Direction::Grant, mutation_outcome(true));
    let message = outcome_message(&outcome, "alice");
    assert_eq!(message, "Successfully opped alice");
}

#[test]
fn allow_listed_requester_gets_revoke_applied() {
    let config = config_from("99", "42");
    let membership = MembershipFetch::Retrieved(Vec::new());
    let step = plan_command(Direction::Revoke, 42, &membership, &config);
    assert_eq!(step, CommandStep::Apply(Direction::Revoke, 99));
    let outcome = CommandOutcome::Mutated(Direction::Revoke, mutation_outcome(true));
    let message = outcome_message(&outcome, "bob");
    assert_eq!(message, "Successfully de-opped bob");
}

#[test]
fn failed_grant_reports_generic_error() {
    let failed = mutation_outcome(false);
    assert_eq!(failed, MutationOutcome::Failure);
    let outcome = CommandOutcome::Mutated(Direction::Grant, failed);
    let message = outcome_message(&outcome, "alice");
    assert_eq!(message, "An error has occurred.");
}

#[test]
fn failed_revoke_reports_generic_error() {
    let outcome = CommandOutcome::Mutated(Direction::Revoke, mutation_outcome(false));
    assert_eq!(outcome_message(&outcome, "bob"), "An error has occurred.");
}

#[test]
fn retrieval_failure_aborts_before_authorization() {
    let config = config_from("99", "42");
    let membership = MembershipFetch::Failed(RetrievalError::MemberUnavailable);
    let step = plan_command(Direction::Grant, 42, &membership, &config);
    assert_eq!(step, CommandStep::AbortRetrieval(RetrievalError::MemberUnavailable));
    let outcome = CommandOutcome::RetrievalFailed(RetrievalError::MemberUnavailable);
    assert_eq!(outcome_message(&outcome, "alice"), "Could not get member");
}

#[test]
fn roles_retrieval_failure_has_its_own_message() {
    let config = config_from("99", "");
    let membership = MembershipFetch::Failed(RetrievalError::RolesUnavailable);
    let step = plan_command(Direction::Revoke, 7, &membership, &config);
    assert_eq!(step, CommandStep::AbortRetrieval(RetrievalError::RolesUnavailable));
    let outcome = CommandOutcome::RetrievalFailed(RetrievalError::RolesUnavailable);
    assert_eq!(outcome_message(&outcome, "bob"), "Could not get member roles");
}

#[test]
fn configured_role_name_governs_the_role_path() {
    let config =
        Config::resolve(Some("99"), Some(String::from("Moderator")), Some("")).unwrap();
    let as_moderator = MembershipFetch::Retrieved(vec![role(1, "Moderator")]);
    let as_operator = MembershipFetch::Retrieved(vec![role(1, "Operator")]);
    let granted = plan_command(Direction::Grant, 42, &as_moderator, &config);
    let denied = plan_command(Direction::Grant, 42, &as_operator, &config);
    assert_eq!(granted, CommandStep::Apply(Direction::Grant, 99));
    assert_eq!(denied, CommandStep::Deny);
}

#[test]
fn success_message_names_the_target() {
    let outcome = CommandOutcome::Mutated(Direction::Grant, MutationOutcome::Success);
    let message = outcome_message(&outcome, "some long display name");
    assert!(message.contains("some long display name"));
}
