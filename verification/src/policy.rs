//! The pure, stateless policy engine: the read-permit predicate and the
//! upload-admissibility matrix. Every decision of the repository goes
//! through these two functions.

use vstd::prelude::*;
use crate::types::{AccessLevel, Principal, UserRole};

verus! {

/// The read-permit matrix: whether a caller with `role` may read a
/// document at `doc_access`, owned by `doc_owner`.
///
/// Business-tier documents are readable by Investors, but Investment-tier
/// documents are not readable by Business users; the asymmetry is
/// deliberate. Private documents are readable by their owner and by
/// Admins only.
pub open spec fn read_permit(
    role: UserRole,
    doc_access: AccessLevel,
    doc_owner: Seq<u8>,
    caller: Seq<u8>,
) -> bool {
    match doc_access {
        AccessLevel::Public => true,
        AccessLevel::Investment => role == UserRole::Admin || role == UserRole::Investor,
        AccessLevel::Business => role == UserRole::Admin || role == UserRole::Business
            || role == UserRole::Investor,
        AccessLevel::Private => caller == doc_owner || role == UserRole::Admin,
    }
}

/// The upload-admissibility matrix: whether a caller with `role` may
/// create a document at `level`. Admins may use every level; Business may
/// use Business and Private; Investors may use Investment and Private;
/// Guests may use Public only.
pub open spec fn upload_allowed(role: UserRole, level: AccessLevel) -> bool {
    match role {
        UserRole::Admin => true,
        UserRole::Business => level == AccessLevel::Business || level == AccessLevel::Private,
        UserRole::Investor => level == AccessLevel::Investment || level == AccessLevel::Private,
        UserRole::Guest => level == AccessLevel::Public,
    }
}

/// Decides the read-permit matrix.
pub fn has_access_to_document(
    user_role: &UserRole,
    doc_access: &AccessLevel,
    doc_owner: &Principal,
    caller: &Principal,
) -> (r: bool)
    ensures
        r == read_permit(*user_role, *doc_access, doc_owner@, caller@),
{
    match doc_access {
        AccessLevel::Public => true,
        AccessLevel::Investment => matches!(user_role, UserRole::Admin | UserRole::Investor),
        AccessLevel::Business => matches!(
            user_role,
            UserRole::Admin | UserRole::Business | UserRole::Investor
        ),
        AccessLevel::Private => caller.equals(doc_owner) || matches!(user_role, UserRole::Admin),
    }
}

/// Decides the upload-admissibility matrix.
pub fn can_upload(role: &UserRole, level: &AccessLevel) -> (r: bool)
    ensures
        r == upload_allowed(*role, *level),
{
    match (role, level) {
        (UserRole::Admin, _) => true,
        (UserRole::Business, AccessLevel::Business | AccessLevel::Private) => true,
        (UserRole::Investor, AccessLevel::Investment | AccessLevel::Private) => true,
        (UserRole::Guest, AccessLevel::Public) => true,
        _ => false,
    }
}

/// A caller who was allowed to upload a document at some level may read
/// that document back, as long as their role has not changed: every
/// admissible (role, level) pair permits the uploader, who owns the
/// document, to read it.
pub proof fn lemma_upload_readable(role: UserRole, level: AccessLevel, owner: Seq<u8>)
    requires
        upload_allowed(role, level),
    ensures
        read_permit(role, level, owner, owner),
{
}

/// The read permit depends on the caller's role, the document's access
/// level and ownership alone: two callers with the same role and the same
/// ownership relation to a document get the same verdict.
pub proof fn lemma_read_permit_role_only(
    role: UserRole,
    doc_access: AccessLevel,
    owner: Seq<u8>,
    caller_a: Seq<u8>,
    caller_b: Seq<u8>,
)
    requires
        (caller_a == owner) == (caller_b == owner),
    ensures
        read_permit(role, doc_access, owner, caller_a) == read_permit(
            role,
            doc_access,
            owner,
            caller_b,
        ),
{
}

} // verus!
