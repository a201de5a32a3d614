//! The mathematical model of the repository: its abstract state, the
//! lookup functions over it, and one transition function per operation.
//! Every executable operation's contract says that it behaves exactly as
//! the corresponding function here.

use vstd::prelude::*;
use crate::docid::{dec_of, sha256_hex_of};
use crate::policy::{read_permit, upload_allowed};
use crate::types::{
    AccessLevel, DocumentChunkV, DocumentMetadataV, RegisterUserRequestV, RepoError,
    UploadDocumentRequestV, UserProfileV, UserRole,
};

verus! {

/// The abstract state: three keyed maps, each a sequence of records in
/// the store's iteration order. Users are keyed by principal, documents
/// by id, chunks by (document id, chunk index).
pub struct RepoV {
    pub users: Seq<UserProfileV>,
    pub docs: Seq<DocumentMetadataV>,
    pub chunks: Seq<DocumentChunkV>,
}

/// The principals of `users` are pairwise distinct: for every principal
/// at most one profile exists.
pub open spec fn distinct_user_keys(users: Seq<UserProfileV>) -> bool {
    forall|i: int, j: int| 0 <= i < j < users.len() ==> users[i].principal != users[j].principal
}

/// The ids of `docs` are pairwise distinct.
pub open spec fn distinct_doc_keys(docs: Seq<DocumentMetadataV>) -> bool {
    forall|i: int, j: int| 0 <= i < j < docs.len() ==> docs[i].id != docs[j].id
}

/// The (document id, chunk index) keys of `chunks` are pairwise
/// distinct.
pub open spec fn distinct_chunk_keys(chunks: Seq<DocumentChunkV>) -> bool {
    forall|i: int, j: int|
        0 <= i < j < chunks.len() ==> !(chunks[i].document_id == chunks[j].document_id
            && chunks[i].chunk_index == chunks[j].chunk_index)
}

impl RepoV {
    /// Well-formedness: each map's keys are unique. In particular, for
    /// every principal at most one profile exists at any time.
    pub open spec fn wf(self) -> bool {
        &&& distinct_user_keys(self.users)
        &&& distinct_doc_keys(self.docs)
        &&& distinct_chunk_keys(self.chunks)
    }

    pub open spec fn has_user(self, p: Seq<u8>) -> bool {
        exists|i: int| 0 <= i < self.users.len() && self.users[i].principal == p
    }

    pub open spec fn user_index(self, p: Seq<u8>) -> int {
        choose|i: int| 0 <= i < self.users.len() && self.users[i].principal == p
    }

    pub open spec fn user_at(self, p: Seq<u8>) -> UserProfileV {
        self.users[self.user_index(p)]
    }

    /// The role a caller acts with for reads: absent profiles read as
    /// Guests.
    pub open spec fn read_role_of(self, p: Seq<u8>) -> UserRole {
        if self.has_user(p) {
            self.user_at(p).role
        } else {
            UserRole::Guest
        }
    }

    pub open spec fn has_doc(self, id: Seq<char>) -> bool {
        exists|i: int| 0 <= i < self.docs.len() && self.docs[i].id == id
    }

    pub open spec fn doc_index(self, id: Seq<char>) -> int {
        choose|i: int| 0 <= i < self.docs.len() && self.docs[i].id == id
    }

    pub open spec fn doc_at(self, id: Seq<char>) -> DocumentMetadataV {
        self.docs[self.doc_index(id)]
    }

    pub open spec fn has_chunk(self, id: Seq<char>, index: u32) -> bool {
        exists|i: int|
            0 <= i < self.chunks.len() && self.chunks[i].document_id == id
                && self.chunks[i].chunk_index == index
    }

    pub open spec fn chunk_index_of(self, id: Seq<char>, index: u32) -> int {
        choose|i: int|
            0 <= i < self.chunks.len() && self.chunks[i].document_id == id
                && self.chunks[i].chunk_index == index
    }

    pub open spec fn chunk_at(self, id: Seq<char>, index: u32) -> DocumentChunkV {
        self.chunks[self.chunk_index_of(id, index)]
    }
}

/// The profile a self-registration creates.
pub open spec fn new_profile_v(
    caller: Seq<u8>,
    req: RegisterUserRequestV,
    now: u64,
) -> UserProfileV {
    UserProfileV {
        principal: caller,
        role: req.role,
        display_name: req.display_name,
        email: req.email,
        created_at: now,
        updated_at: now,
    }
}

/// The profile bootstrap inserts for the first-ever initializing caller.
pub open spec fn bootstrap_profile_v(caller: Seq<u8>, now: u64) -> UserProfileV {
    UserProfileV {
        principal: caller,
        role: UserRole::Admin,
        display_name: Option::Some("System Admin"@),
        email: Option::None,
        created_at: now,
        updated_at: now,
    }
}

/// The id a document uploaded by `caller` under `name` at `now` gets.
pub open spec fn document_id_of(name: Seq<char>, caller: Seq<u8>, now: u64) -> Seq<char> {
    sha256_hex_of(name, caller, dec_of(now as nat))
}

/// The metadata record an upload creates.
pub open spec fn new_metadata_v(
    caller: Seq<u8>,
    req: UploadDocumentRequestV,
    now: u64,
) -> DocumentMetadataV {
    DocumentMetadataV {
        id: document_id_of(req.name, caller, now),
        name: req.name,
        description: req.description,
        file_type: req.file_type,
        size: req.data.len() as u64,
        owner: caller,
        access_level: req.access_level,
        created_at: now,
        updated_at: now,
        tags: req.tags,
    }
}

/// The single payload chunk an upload creates, at index 0.
pub open spec fn new_chunk_v(caller: Seq<u8>, req: UploadDocumentRequestV, now: u64) -> DocumentChunkV {
    DocumentChunkV {
        document_id: document_id_of(req.name, caller, now),
        chunk_index: 0,
        data: req.data,
    }
}

/// Inserting under an existing key overwrites the record in place;
/// otherwise the record is appended.
pub open spec fn upsert_doc(s: RepoV, m: DocumentMetadataV) -> Seq<DocumentMetadataV> {
    if s.has_doc(m.id) {
        s.docs.update(s.doc_index(m.id), m)
    } else {
        s.docs.push(m)
    }
}

/// Inserting a chunk under an existing (document id, index) key
/// overwrites the record in place; otherwise the record is appended.
pub open spec fn upsert_chunk(s: RepoV, c: DocumentChunkV) -> Seq<DocumentChunkV> {
    if s.has_chunk(c.document_id, c.chunk_index) {
        s.chunks.update(s.chunk_index_of(c.document_id, c.chunk_index), c)
    } else {
        s.chunks.push(c)
    }
}

/// First-ever initialization bootstraps an Admin profile for the caller;
/// once any profile exists, initialization changes nothing.
pub open spec fn init_state(s: RepoV, caller: Seq<u8>, now: u64) -> RepoV {
    if s.users.len() == 0 {
        RepoV { users: seq![bootstrap_profile_v(caller, now)], docs: s.docs, chunks: s.chunks }
    } else {
        s
    }
}

/// Self-registration: refused when a profile already exists, otherwise
/// the new profile is appended.
pub open spec fn register_state(
    s: RepoV,
    caller: Seq<u8>,
    req: RegisterUserRequestV,
    now: u64,
) -> RepoV {
    if s.has_user(caller) {
        s
    } else {
        RepoV { users: s.users.push(new_profile_v(caller, req, now)), docs: s.docs, chunks: s.chunks }
    }
}

pub open spec fn register_result(
    s: RepoV,
    caller: Seq<u8>,
    req: RegisterUserRequestV,
    now: u64,
) -> Result<UserProfileV, RepoError> {
    if s.has_user(caller) {
        Result::Err(RepoError::AlreadyRegistered)
    } else {
        Result::Ok(new_profile_v(caller, req, now))
    }
}

/// Whether `p` holds an Admin profile; this is what privileged
/// operations require of their caller.
pub open spec fn is_admin(s: RepoV, p: Seq<u8>) -> bool {
    s.has_user(p) && s.user_at(p).role == UserRole::Admin
}

/// The target's profile after a role assignment: the role is replaced
/// and `updated_at` refreshed; everything else is kept.
pub open spec fn reassigned_profile_v(p: UserProfileV, new_role: UserRole, now: u64) -> UserProfileV {
    UserProfileV {
        principal: p.principal,
        role: new_role,
        display_name: p.display_name,
        email: p.email,
        created_at: p.created_at,
        updated_at: now,
    }
}

/// Role assignment: Admin-only; the target must exist; on success the
/// target's record is overwritten in place.
pub open spec fn assign_state(
    s: RepoV,
    caller: Seq<u8>,
    target: Seq<u8>,
    new_role: UserRole,
    now: u64,
) -> RepoV {
    if !is_admin(s, caller) {
        s
    } else if !s.has_user(target) {
        s
    } else {
        RepoV {
            users: s.users.update(
                s.user_index(target),
                reassigned_profile_v(s.user_at(target), new_role, now),
            ),
            docs: s.docs,
            chunks: s.chunks,
        }
    }
}

pub open spec fn assign_result(
    s: RepoV,
    caller: Seq<u8>,
    target: Seq<u8>,
    new_role: UserRole,
    now: u64,
) -> Result<UserProfileV, RepoError> {
    if !is_admin(s, caller) {
        Result::Err(RepoError::NotAuthorized)
    } else if !s.has_user(target) {
        Result::Err(RepoError::NotFound)
    } else {
        Result::Ok(reassigned_profile_v(s.user_at(target), new_role, now))
    }
}

/// Upload: the caller must be registered and the (role, access level)
/// pair admissible; then metadata and the single chunk are written,
/// overwriting any records under the same keys.
pub open spec fn upload_state(
    s: RepoV,
    caller: Seq<u8>,
    req: UploadDocumentRequestV,
    now: u64,
) -> RepoV {
    if !s.has_user(caller) {
        s
    } else if !upload_allowed(s.user_at(caller).role, req.access_level) {
        s
    } else {
        RepoV {
            users: s.users,
            docs: upsert_doc(s, new_metadata_v(caller, req, now)),
            chunks: upsert_chunk(s, new_chunk_v(caller, req, now)),
        }
    }
}

pub open spec fn upload_result(
    s: RepoV,
    caller: Seq<u8>,
    req: UploadDocumentRequestV,
    now: u64,
) -> Result<DocumentMetadataV, RepoError> {
    if !s.has_user(caller) {
        Result::Err(RepoError::NotRegistered)
    } else if !upload_allowed(s.user_at(caller).role, req.access_level) {
        Result::Err(RepoError::NotAuthorized)
    } else {
        Result::Ok(new_metadata_v(caller, req, now))
    }
}

/// Profile lookup: the caller's own profile, or NotFound.
pub open spec fn get_profile_result(s: RepoV, caller: Seq<u8>) -> Result<UserProfileV, RepoError> {
    if s.has_user(caller) {
        Result::Ok(s.user_at(caller))
    } else {
        Result::Err(RepoError::NotFound)
    }
}

/// User enumeration: Admin-only; all profiles in the store's order.
pub open spec fn list_users_result(s: RepoV, caller: Seq<u8>) -> Result<Seq<UserProfileV>, RepoError> {
    if is_admin(s, caller) {
        Result::Ok(s.users)
    } else {
        Result::Err(RepoError::NotAuthorized)
    }
}

/// Download: the document must exist, the read policy must permit the
/// caller (absent profiles read as Guests), and the payload chunk at
/// index 0 must be present.
pub open spec fn download_result(s: RepoV, caller: Seq<u8>, id: Seq<char>) -> Result<
    Seq<u8>,
    RepoError,
> {
    if !s.has_doc(id) {
        Result::Err(RepoError::NotFound)
    } else if !read_permit(s.read_role_of(caller), s.doc_at(id).access_level, s.doc_at(id).owner, caller) {
        Result::Err(RepoError::AccessDenied)
    } else if !s.has_chunk(id, 0) {
        Result::Err(RepoError::PayloadMissing)
    } else {
        Result::Ok(s.chunk_at(id, 0).data)
    }
}

/// The metadata records of `docs` that the read policy permits `caller`
/// (acting with `role`) to see, in the store's order.
pub open spec fn permitted_docs(
    docs: Seq<DocumentMetadataV>,
    role: UserRole,
    caller: Seq<u8>,
) -> Seq<DocumentMetadataV>
    decreases docs.len(),
{
    if docs.len() == 0 {
        Seq::empty()
    } else {
        let rest = permitted_docs(docs.drop_last(), role, caller);
        if read_permit(role, docs.last().access_level, docs.last().owner, caller) {
            rest.push(docs.last())
        } else {
            rest
        }
    }
}

/// Document enumeration: never fails; denied records are silently
/// omitted.
pub open spec fn list_documents_result(s: RepoV, caller: Seq<u8>) -> Seq<DocumentMetadataV> {
    permitted_docs(s.docs, s.read_role_of(caller), caller)
}

} // verus!
