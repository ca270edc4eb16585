//! The per-invocation command state machine for op and deop.
//!
//! One command invocation runs through at most three decisions: whether the
//! requester's membership could be retrieved at all, whether the requester
//! is authorized, and — once the platform has attempted the mutation — what
//! single outcome message the invocation ends in. The platform calls
//! themselves (retrieving membership, adding or removing the role, sending
//! the message) happen outside this crate; these functions decide, from
//! plain values, what each of those calls should be and what to tell the
//! user afterwards.

use vstd::prelude::*;
use vstd::string::StringExecFns;
use crate::auth::{Role, is_authorized, spec_is_authorized};
use crate::config::Config;

verus! {

/// The two directions a role mutation can take: op grants, deop revokes.
#[derive(Clone, Copy, Debug, PartialEq, Eq, Structural)]
pub enum Direction {
    Grant,
    Revoke,
}

/// What the role mutation executor reports to the caller. Every failure
/// cause — network error, missing bot permission, a role deleted
/// concurrently — collapses to `Failure`; no cause reaches the user.
#[derive(Clone, Copy, Debug, PartialEq, Eq, Structural)]
pub enum MutationOutcome {
    Success,
    Failure,
}

/// Why the requester's membership could not be determined: the requester
/// was not resolvable as a current member, or the member's roles were not
/// available. Distinct from "not authorized".
#[derive(Clone, Copy, Debug, PartialEq, Eq, Structural)]
pub enum RetrievalError {
    MemberUnavailable,
    RolesUnavailable,
}

/// What the platform handed back when asked for the requester's current
/// role membership: the snapshot, or the reason it could not be taken.
pub enum MembershipFetch {
    Retrieved(Vec<Role>),
    Failed(RetrievalError),
}

/// The single step a command invocation takes after the membership fetch:
/// abort on a retrieval failure, deny an unauthorized requester, or apply
/// the mutation with this direction and role identifier to the target.
#[derive(Clone, Copy, Debug, PartialEq, Eq, Structural)]
pub enum CommandStep {
    AbortRetrieval(RetrievalError),
    Deny,
    Apply(Direction, u64),
}

/// The step a command invocation must take, as a function of the fetch
/// result, the requester, and the policy. A retrieval failure aborts before
/// authorization is even considered; a denied requester causes no mutation.
pub open spec fn spec_plan_command(
    direction: Direction,
    requester: u64,
    membership: MembershipFetch,
    config: Config,
) -> CommandStep {
    match membership {
        MembershipFetch::Failed(e) => CommandStep::AbortRetrieval(e),
        MembershipFetch::Retrieved(roles) => if spec_is_authorized(
            requester,
            roles@,
            config.operator_role_name@,
            config.allow_list@,
        ) {
            CommandStep::Apply(direction, config.operator_role_id)
        } else {
            CommandStep::Deny
        },
    }
}

/// Decides the one step this command invocation takes: abort when the
/// membership snapshot could not be retrieved, deny when the requester is
/// not authorized, and otherwise apply the mutation — op grants, deop
/// revokes — with the configured operator role identifier.
pub fn plan_command(
    direction: Direction,
    requester: u64,
    membership: &MembershipFetch,
    config: &Config,
) -> (step: CommandStep)
    ensures
        step == spec_plan_command(direction, requester, *membership, *config),
{
    match membership {
        MembershipFetch::Failed(e) => CommandStep::AbortRetrieval(*e),
        MembershipFetch::Retrieved(roles) => {
            if is_authorized(requester, roles, &config.operator_role_name, &config.allow_list) {
                CommandStep::Apply(direction, config.operator_role_id)
            } else {
                CommandStep::Deny
            }
        }
    }
}

/// Collapses the platform's report of a single mutation attempt into the
/// executor's two-valued outcome: any failure is `Failure`, with no cause
/// attached and no retry.
pub fn mutation_outcome(call_succeeded: bool) -> (m: MutationOutcome)
    ensures
        m == if call_succeeded {
            MutationOutcome::Success
        } else {
            MutationOutcome::Failure
        },
{
    if call_succeeded {
        MutationOutcome::Success
    } else {
        MutationOutcome::Failure
    }
}

/// How one command invocation ended; each invocation ends in exactly one of
/// these, and each maps to exactly one user-visible message.
pub enum CommandOutcome {
    RetrievalFailed(RetrievalError),
    Denied,
    Mutated(Direction, MutationOutcome),
}

/// The one user-visible message a finished invocation emits. Only a
/// successful mutation names the target; a failed one reports a generic
/// error that does not distinguish causes.
pub open spec fn spec_outcome_message(outcome: CommandOutcome, target_name: Seq<char>) -> Seq<
    char,
> {
    match outcome {
        CommandOutcome::RetrievalFailed(RetrievalError::MemberUnavailable) => "Could not get member"@,
        CommandOutcome::RetrievalFailed(RetrievalError::RolesUnavailable) => "Could not get member roles"@,
        CommandOutcome::Denied => "You do not have permission to run this command."@,
        CommandOutcome::Mutated(Direction::Grant, MutationOutcome::Success) => "Successfully opped "@
            + target_name,
        CommandOutcome::Mutated(Direction::Revoke, MutationOutcome::Success) => "Successfully de-opped "@
            + target_name,
        CommandOutcome::Mutated(_, MutationOutcome::Failure) => "An error has occurred."@,
    }
}

/// Renders the outcome of a finished invocation as its user-visible
/// message, naming the target's display name on a successful mutation.
pub fn outcome_message(outcome: &CommandOutcome, target_name: &str) -> (m: String)
    ensures
        m@ == spec_outcome_message(*outcome, target_name@),
{
    match outcome {
        CommandOutcome::RetrievalFailed(RetrievalError::MemberUnavailable) => "Could not get member".to_owned(),
        CommandOutcome::RetrievalFailed(RetrievalError::RolesUnavailable) => "Could not get member roles".to_owned(),
        CommandOutcome::Denied => "You do not have permission to run this command.".to_owned(),
        CommandOutcome::Mutated(Direction::Grant, MutationOutcome::Success) => "Successfully opped ".to_owned().concat(
            target_name,
        ),
        CommandOutcome::Mutated(Direction::Revoke, MutationOutcome::Success) => "Successfully de-opped ".to_owned().concat(
            target_name,
        ),
        CommandOutcome::Mutated(_, MutationOutcome::Failure) => "An error has occurred.".to_owned(),
    }
}

/// Law: a retrieval failure ends the invocation before authorization or
/// mutation — whatever the requester, the policy, and the direction, the
/// planned step is the abort, never `Apply`.
pub proof fn lemma_retrieval_failure_precludes_mutation(
    direction: Direction,
    requester: u64,
    e: RetrievalError,
    config: Config,
)
    ensures
        spec_plan_command(direction, requester, MembershipFetch::Failed(e), config)
            == CommandStep::AbortRetrieval(e),
{
}

/// Law: an unauthorized requester is denied and no mutation is planned;
/// an authorized one has exactly one mutation planned, in the requested
/// direction, on the configured operator role.
pub proof fn lemma_plan_follows_authorization(
    direction: Direction,
    requester: u64,
    roles: Vec<Role>,
    config: Config,
)
    ensures
        spec_is_authorized(requester, roles@, config.operator_role_name@, config.allow_list@)
            ==> spec_plan_command(
            direction,
            requester,
            MembershipFetch::Retrieved(roles),
            config,
        ) == CommandStep::Apply(direction, config.operator_role_id),
        !spec_is_authorized(requester, roles@, config.operator_role_name@, config.allow_list@)
            ==> spec_plan_command(
            direction,
            requester,
            MembershipFetch::Retrieved(roles),
            config,
        ) == CommandStep::Deny,
{
}

} // verus!
