//! The authorization decision: may this requester grant or revoke the
//! operator role?
//!
//! The decision is a pure disjunction of two independent paths. The role
//! path admits a requester who currently holds a role whose display name
//! equals the configured operator role name, character for character. The
//! allow-list path admits a requester whose identifier stands in the
//! configured allow list. A requester matching neither path is denied.

use vstd::prelude::*;

verus! {

/// One role a requester currently holds, as the platform reports it: its
/// numeric identifier and its display name.
pub struct Role {
    pub id: u64,
    pub name: String,
}

/// The requester holds a role whose display name equals `name` exactly:
/// case-sensitive, with no normalization.
pub open spec fn holds_role_named(roles: Seq<Role>, name: Seq<char>) -> bool {
    exists|i: int| 0 <= i < roles.len() && #[trigger] roles[i].name@ == name
}

/// The authorization decision as a function of its four inputs: the role
/// path or the allow-list path admits, nothing else does.
pub open spec fn spec_is_authorized(
    requester: u64,
    roles: Seq<Role>,
    operator_role_name: Seq<char>,
    allow_list: Seq<u64>,
) -> bool {
    holds_role_named(roles, operator_role_name) || allow_list.contains(requester)
}

/// Decides whether `requester` may grant or revoke the operator role, from
/// a snapshot of the roles the requester currently holds and the resolved
/// policy. Empty roles and an empty allow list degrade to "no match on that
/// path"; neither is an error.
pub fn is_authorized(
    requester: u64,
    requester_roles: &Vec<Role>,
    operator_role_name: &String,
    allow_list: &Vec<u64>,
) -> (r: bool)
    ensures
        r == spec_is_authorized(requester, requester_roles@, operator_role_name@, allow_list@),
{
    let mut i: usize = 0;
    while i < requester_roles.len()
        invariant
            i <= requester_roles@.len(),
            forall|j: int| 0 <= j < i ==> #[trigger] requester_roles@[j].name@
                != operator_role_name@,
        decreases requester_roles@.len() - i,
    {
        if requester_roles[i].name.eq(operator_role_name) {
            return true;
        }
        i += 1;
    }
    let mut k: usize = 0;
    while k < allow_list.len()
        invariant
            k <= allow_list@.len(),
            forall|j: int| 0 <= j < k ==> allow_list@[j] != requester,
        decreases allow_list@.len() - k,
    {
        if allow_list[k] == requester {
            return true;
        }
        k += 1;
    }
    false
}

/// Law: any two results that `is_authorized`'s contract admits for
/// identical inputs are equal — the decision is a function of its four
/// inputs alone, with no hidden state.
pub proof fn lemma_is_authorized_pure(
    r1: bool,
    r2: bool,
    requester: u64,
    roles: Seq<Role>,
    operator_role_name: Seq<char>,
    allow_list: Seq<u64>,
)
    requires
        r1 == spec_is_authorized(requester, roles, operator_role_name, allow_list),
        r2 == spec_is_authorized(requester, roles, operator_role_name, allow_list),
    ensures
        r1 == r2,
{
}

/// Law: a requester whose membership includes a role named exactly by the
/// operator role name is authorized, whatever the allow list holds.
pub proof fn lemma_role_path_authorizes(
    requester: u64,
    roles: Seq<Role>,
    operator_role_name: Seq<char>,
    allow_list: Seq<u64>,
)
    requires
        holds_role_named(roles, operator_role_name),
    ensures
        spec_is_authorized(requester, roles, operator_role_name, allow_list),
{
}

/// Law: a requester whose identifier stands in the allow list is
/// authorized, whatever roles the requester holds — the empty membership
/// included.
pub proof fn lemma_allow_list_authorizes(
    requester: u64,
    roles: Seq<Role>,
    operator_role_name: Seq<char>,
    allow_list: Seq<u64>,
)
    requires
        allow_list.contains(requester),
    ensures
        spec_is_authorized(requester, roles, operator_role_name, allow_list),
{
}

/// Law: a requester matching neither path — no role with the operator role
/// name, an identifier outside the allow list — is denied.
pub proof fn lemma_neither_path_denies(
    requester: u64,
    roles: Seq<Role>,
    operator_role_name: Seq<char>,
    allow_list: Seq<u64>,
)
    requires
        !holds_role_named(roles, operator_role_name),
        !allow_list.contains(requester),
    ensures
        !spec_is_authorized(requester, roles, operator_role_name, allow_list),
{
}

} // verus!
