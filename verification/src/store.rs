//! The keyed-state store and the operations over it. The three maps are
//! kept as vectors of records in insertion order (the store's stable
//! iteration order), with unique keys; every operation's contract says
//! that it behaves exactly as the transition functions of [`crate::model`].

use vstd::prelude::*;
use crate::model::{
    assign_result, assign_state, download_result, get_profile_result, init_state,
    list_documents_result, list_users_result, register_result, register_state, upload_result,
    upload_state, RepoV,
};
use crate::policy::{can_upload, has_access_to_document};
use crate::types::{
    clone_bytes, DocumentChunk, DocumentChunkV, DocumentMetadata, DocumentMetadataV, Principal,
    RegisterUserRequest, RepoError, UploadDocumentRequest, UserProfile, UserProfileV, UserRole,
};

verus! {

/// The views of a sequence of profiles, in order.
pub open spec fn profiles_view(users: Seq<UserProfile>) -> Seq<UserProfileV> {
    users.map_values(|u: UserProfile| u@)
}

/// The views of a sequence of metadata records, in order.
pub open spec fn docs_view(docs: Seq<DocumentMetadata>) -> Seq<DocumentMetadataV> {
    docs.map_values(|d: DocumentMetadata| d@)
}

/// The views of a sequence of chunks, in order.
pub open spec fn chunks_view(chunks: Seq<DocumentChunk>) -> Seq<DocumentChunkV> {
    chunks.map_values(|c: DocumentChunk| c@)
}

/// The whole state of the repository: users keyed by principal,
/// documents keyed by id, payload chunks keyed by (document id, chunk
/// index). The durable substrate behind these maps is the embedder's
/// concern; the logic here is what it must persist.
pub struct Repository {
    pub users: Vec<UserProfile>,
    pub docs: Vec<DocumentMetadata>,
    pub chunks: Vec<DocumentChunk>,
}

impl View for Repository {
    type V = RepoV;

    open spec fn view(&self) -> RepoV {
        RepoV {
            users: profiles_view(self.users@),
            docs: docs_view(self.docs@),
            chunks: chunks_view(self.chunks@),
        }
    }
}

/// A found user index is the one the model's lookup denotes.
pub proof fn lemma_user_found(s: RepoV, p: Seq<u8>, i: int)
    requires
        s.wf(),
        0 <= i < s.users.len(),
        s.users[i].principal == p,
    ensures
        s.has_user(p),
        s.user_index(p) == i,
        s.user_at(p) == s.users[i],
{
    assert(s.has_user(p));
    let j = s.user_index(p);
    assert(0 <= j < s.users.len() && s.users[j].principal == p);
    if i < j {
        assert(s.users[i].principal != s.users[j].principal);
    } else if j < i {
        assert(s.users[j].principal != s.users[i].principal);
    }
}

/// A found document index is the one the model's lookup denotes.
pub proof fn lemma_doc_found(s: RepoV, id: Seq<char>, i: int)
    requires
        s.wf(),
        0 <= i < s.docs.len(),
        s.docs[i].id == id,
    ensures
        s.has_doc(id),
        s.doc_index(id) == i,
        s.doc_at(id) == s.docs[i],
{
    assert(s.has_doc(id));
    let j = s.doc_index(id);
    assert(0 <= j < s.docs.len() && s.docs[j].id == id);
    if i < j {
        assert(s.docs[i].id != s.docs[j].id);
    } else if j < i {
        assert(s.docs[j].id != s.docs[i].id);
    }
}

/// A found chunk index is the one the model's lookup denotes.
pub proof fn lemma_chunk_found(s: RepoV, id: Seq<char>, index: u32, i: int)
    requires
        s.wf(),
        0 <= i < s.chunks.len(),
        s.chunks[i].document_id == id,
        s.chunks[i].chunk_index == index,
    ensures
        s.has_chunk(id, index),
        s.chunk_index_of(id, index) == i,
        s.chunk_at(id, index) == s.chunks[i],
{
    assert(s.has_chunk(id, index));
    let j = s.chunk_index_of(id, index);
    assert(0 <= j < s.chunks.len() && s.chunks[j].document_id == id && s.chunks[j].chunk_index
        == index);
    if i < j {
        assert(!(s.chunks[i].document_id == s.chunks[j].document_id && s.chunks[i].chunk_index
            == s.chunks[j].chunk_index));
    } else if j < i {
        assert(!(s.chunks[j].document_id == s.chunks[i].document_id && s.chunks[j].chunk_index
            == s.chunks[i].chunk_index));
    }
}

/// Finds the caller's profile, if any.
fn find_user(users: &Vec<UserProfile>, p: &Principal) -> (r: Option<usize>)
    ensures
        match r {
            Option::Some(i) => i < users.len() && profiles_view(users@)[i as int].principal == p@,
            Option::None => forall|j: int|
                0 <= j < users@.len() ==> profiles_view(users@)[j].principal != p@,
        },
{
    let mut i: usize = 0;
    while i < users.len()
        invariant
            i <= users.len(),
            forall|j: int| 0 <= j < i ==> profiles_view(users@)[j].principal != p@,
        decreases users.len() - i,
    {
        if users[i].principal.equals(p) {
            return Option::Some(i);
        }
        i += 1;
    }
    Option::None
}

/// Finds the metadata record under `id`, if any.
fn find_doc(docs: &Vec<DocumentMetadata>, id: &String) -> (r: Option<usize>)
    ensures
        match r {
            Option::Some(i) => i < docs.len() && docs_view(docs@)[i as int].id == id@,
            Option::None => forall|j: int| 0 <= j < docs@.len() ==> docs_view(docs@)[j].id != id@,
        },
{
    let mut i: usize = 0;
    while i < docs.len()
        invariant
            i <= docs.len(),
            forall|j: int| 0 <= j < i ==> docs_view(docs@)[j].id != id@,
        decreases docs.len() - i,
    {
        if docs[i].id == *id {
            return Option::Some(i);
        }
        i += 1;
    }
    Option::None
}

/// Finds the chunk under (`id`, `index`), if any.
fn find_chunk(chunks: &Vec<DocumentChunk>, id: &String, index: u32) -> (r: Option<usize>)
    ensures
        match r {
            Option::Some(i) => i < chunks.len() && chunks_view(chunks@)[i as int].document_id == id@
                && chunks_view(chunks@)[i as int].chunk_index == index,
            Option::None => forall|j: int|
                0 <= j < chunks@.len() ==> !(chunks_view(chunks@)[j].document_id == id@
                    && chunks_view(chunks@)[j].chunk_index == index),
        },
{
    let mut i: usize = 0;
    while i < chunks.len()
        invariant
            i <= chunks.len(),
            forall|j: int|
                0 <= j < i ==> !(chunks_view(chunks@)[j].document_id == id@
                    && chunks_view(chunks@)[j].chunk_index == index),
        decreases chunks.len() - i,
    {
        if chunks[i].chunk_index == index && chunks[i].document_id == *id {
            return Option::Some(i);
        }
        i += 1;
    }
    Option::None
}

/// Whether all principals in `users` are pairwise distinct.
fn distinct_principals(users: &Vec<UserProfile>) -> (r: bool)
    ensures
        r == crate::model::distinct_user_keys(profiles_view(users@)),
{
    let n = users.len();
    let mut i: usize = 0;
    while i < n
        invariant
            n == users.len(),
            i <= n,
            forall|a: int, b: int|
                0 <= a < b < n && a < i ==> profiles_view(users@)[a].principal != profiles_view(
                    users@,
                )[b].principal,
        decreases n - i,
    {
        let mut j: usize = i + 1;
        while j < n
            invariant
                n == users.len(),
                i < n,
                i < j <= n,
                forall|b: int|
                    i < b < j ==> profiles_view(users@)[i as int].principal != profiles_view(
                        users@,
                    )[b].principal,
            decreases n - j,
        {
            if users[i].principal.equals(&users[j].principal) {
                proof {
                    assert(profiles_view(users@)[i as int].principal == profiles_view(
                        users@,
                    )[j as int].principal);
                }
                return false;
            }
            j += 1;
        }
        i += 1;
    }
    true
}

/// Whether all document ids in `docs` are pairwise distinct.
fn distinct_doc_ids(docs: &Vec<DocumentMetadata>) -> (r: bool)
    ensures
        r == crate::model::distinct_doc_keys(docs_view(docs@)),
{
    let n = docs.len();
    let mut i: usize = 0;
    while i < n
        invariant
            n == docs.len(),
            i <= n,
            forall|a: int, b: int|
                0 <= a < b < n && a < i ==> docs_view(docs@)[a].id != docs_view(docs@)[b].id,
        decreases n - i,
    {
        let mut j: usize = i + 1;
        while j < n
            invariant
                n == docs.len(),
                i < n,
                i < j <= n,
                forall|b: int|
                    i < b < j ==> docs_view(docs@)[i as int].id != docs_view(docs@)[b].id,
            decreases n - j,
        {
            if docs[i].id == docs[j].id {
                proof {
                    assert(docs_view(docs@)[i as int].id == docs_view(docs@)[j as int].id);
                }
                return false;
            }
            j += 1;
        }
        i += 1;
    }
    true
}

/// Whether all (document id, chunk index) keys in `chunks` are pairwise
/// distinct.
fn distinct_chunk_records(chunks: &Vec<DocumentChunk>) -> (r: bool)
    ensures
        r == crate::model::distinct_chunk_keys(chunks_view(chunks@)),
{
    let n = chunks.len();
    let mut i: usize = 0;
    while i < n
        invariant
            n == chunks.len(),
            i <= n,
            forall|a: int, b: int|
                0 <= a < b < n && a < i ==> !(chunks_view(chunks@)[a].document_id == chunks_view(
                    chunks@,
                )[b].document_id && chunks_view(chunks@)[a].chunk_index == chunks_view(
                    chunks@,
                )[b].chunk_index),
        decreases n - i,
    {
        let mut j: usize = i + 1;
        while j < n
            invariant
                n == chunks.len(),
                i < n,
                i < j <= n,
                forall|b: int|
                    i < b < j ==> !(chunks_view(chunks@)[i as int].document_id == chunks_view(
                        chunks@,
                    )[b].document_id && chunks_view(chunks@)[i as int].chunk_index == chunks_view(
                        chunks@,
                    )[b].chunk_index),
            decreases n - j,
        {
            if chunks[i].chunk_index == chunks[j].chunk_index && chunks[i].document_id
                == chunks[j].document_id {
                proof {
                    assert(chunks_view(chunks@)[i as int].document_id == chunks_view(
                        chunks@,
                    )[j as int].document_id && chunks_view(chunks@)[i as int].chunk_index
                        == chunks_view(chunks@)[j as int].chunk_index);
                }
                return false;
            }
            j += 1;
        }
        i += 1;
    }
    true
}

/// The view of a profile-or-error result.
pub open spec fn result_profile_view(r: Result<UserProfile, RepoError>) -> Result<
    UserProfileV,
    RepoError,
> {
    match r {
        Result::Ok(p) => Result::Ok(p@),
        Result::Err(e) => Result::Err(e),
    }
}

/// The view of a metadata-or-error result.
pub open spec fn result_metadata_view(r: Result<DocumentMetadata, RepoError>) -> Result<
    DocumentMetadataV,
    RepoError,
> {
    match r {
        Result::Ok(m) => Result::Ok(m@),
        Result::Err(e) => Result::Err(e),
    }
}

/// The view of a bytes-or-error result.
pub open spec fn result_bytes_view(r: Result<Vec<u8>, RepoError>) -> Result<Seq<u8>, RepoError> {
    match r {
        Result::Ok(d) => Result::Ok(d@),
        Result::Err(e) => Result::Err(e),
    }
}

/// The view of a profile-list-or-error result.
pub open spec fn result_profiles_view(r: Result<Vec<UserProfile>, RepoError>) -> Result<
    Seq<UserProfileV>,
    RepoError,
> {
    match r {
        Result::Ok(v) => Result::Ok(profiles_view(v@)),
        Result::Err(e) => Result::Err(e),
    }
}

impl Repository {
    /// An empty repository: no users, no documents, no chunks.
    pub fn new() -> (r: Repository)
        ensures
            r@.users.len() == 0,
            r@.docs.len() == 0,
            r@.chunks.len() == 0,
            r@.wf(),
    {
        Repository { users: Vec::new(), docs: Vec::new(), chunks: Vec::new() }
    }

    /// Returns the caller's own profile, or NotFound. The result is a
    /// function of the state alone, so repeated calls with no mutation
    /// in between return identical data.
    pub fn get_user_profile(&self, caller: &Principal) -> (r: Result<UserProfile, RepoError>)
        requires
            self@.wf(),
        ensures
            result_profile_view(r) == get_profile_result(self@, caller@),
    {
        match find_user(&self.users, caller) {
            Option::Some(i) => {
                proof {
                    lemma_user_found(self@, caller@, i as int);
                }
                Result::Ok(self.users[i].clone())
            },
            Option::None => {
                proof {
                    assert(!self@.has_user(caller@));
                }
                Result::Err(RepoError::NotFound)
            },
        }
    }

    /// Returns every profile, in the store's order; Admin only.
    pub fn list_users(&self, caller: &Principal) -> (r: Result<Vec<UserProfile>, RepoError>)
        requires
            self@.wf(),
        ensures
            result_profiles_view(r) == list_users_result(self@, caller@),
    {
        let caller_is_admin: bool = match find_user(&self.users, caller) {
            Option::Some(i) => {
                proof {
                    lemma_user_found(self@, caller@, i as int);
                }
                matches!(self.users[i].role, UserRole::Admin)
            },
            Option::None => {
                proof {
                    assert(!self@.has_user(caller@));
                }
                false
            },
        };
        if !caller_is_admin {
            return Result::Err(RepoError::NotAuthorized);
        }
        let mut out: Vec<UserProfile> = Vec::new();
        let mut k: usize = 0;
        while k < self.users.len()
            invariant
                k <= self.users.len(),
                profiles_view(out@) == profiles_view(self.users@).subrange(0, k as int),
            decreases self.users.len() - k,
        {
            let ghost out0 = out@;
            let ghost k0 = k as int;
            let u = self.users[k].clone();
            let ghost uv = u@;
            out.push(u);
            k += 1;
            proof {
                assert(uv == profiles_view(self.users@)[k0]);
                assert(profiles_view(out0).len() == out0.len());
                assert(profiles_view(out0) == profiles_view(self.users@).subrange(0, k0));
                assert(out0.len() == k0);
                assert(out@.len() == k0 + 1);
                assert forall|j: int| 0 <= j < k as int implies profiles_view(out@)[j]
                    == profiles_view(self.users@).subrange(0, k as int)[j] by {
                    if j < k0 {
                        assert(profiles_view(out@)[j] == profiles_view(out0)[j]);
                    } else {
                        assert(profiles_view(out@)[j] == uv);
                    }
                }
                assert(profiles_view(out@) =~= profiles_view(self.users@).subrange(0, k as int));
            }
        }
        proof {
            assert(profiles_view(out@) =~= profiles_view(self.users@));
        }
        Result::Ok(out)
    }

    /// Returns the payload of the document under `document_id`, if it
    /// exists, the read policy permits the caller, and the chunk is
    /// present. The result is a function of the state alone, so repeated
    /// calls with no mutation in between return identical bytes.
    pub fn download_document(&self, caller: &Principal, document_id: &String) -> (r: Result<
        Vec<u8>,
        RepoError,
    >)
        requires
            self@.wf(),
        ensures
            result_bytes_view(r) == download_result(self@, caller@, document_id@),
    {
        let role: UserRole = match find_user(&self.users, caller) {
            Option::Some(i) => {
                proof {
                    lemma_user_found(self@, caller@, i as int);
                }
                self.users[i].role
            },
            Option::None => {
                proof {
                    assert(!self@.has_user(caller@));
                }
                UserRole::Guest
            },
        };
        proof {
            assert(role == self@.read_role_of(caller@));
        }
        let i = match find_doc(&self.docs, document_id) {
            Option::Some(i) => i,
            Option::None => {
                proof {
                    assert(!self@.has_doc(document_id@));
                }
                return Result::Err(RepoError::NotFound);
            },
        };
        proof {
            lemma_doc_found(self@, document_id@, i as int);
        }
        let doc = &self.docs[i];
        if !has_access_to_document(&role, &doc.access_level, &doc.owner, caller) {
            return Result::Err(RepoError::AccessDenied);
        }
        match find_chunk(&self.chunks, document_id, 0) {
            Option::Some(ci) => {
                proof {
                    lemma_chunk_found(self@, document_id@, 0, ci as int);
                }
                Result::Ok(clone_bytes(&self.chunks[ci].data))
            },
            Option::None => {
                proof {
                    assert(!self@.has_chunk(document_id@, 0));
                }
                Result::Err(RepoError::PayloadMissing)
            },
        }
    }

    /// Returns exactly the metadata records the read policy permits the
    /// caller to see, in the store's order; never fails.
    pub fn list_documents(&self, caller: &Principal) -> (r: Vec<DocumentMetadata>)
        requires
            self@.wf(),
        ensures
            docs_view(r@) == list_documents_result(self@, caller@),
    {
        let role: UserRole = match find_user(&self.users, caller) {
            Option::Some(i) => {
                proof {
                    lemma_user_found(self@, caller@, i as int);
                }
                self.users[i].role
            },
            Option::None => {
                proof {
                    assert(!self@.has_user(caller@));
                }
                UserRole::Guest
            },
        };
        proof {
            assert(role == self@.read_role_of(caller@));
        }
        let mut out: Vec<DocumentMetadata> = Vec::new();
        let mut k: usize = 0;
        while k < self.docs.len()
            invariant
                k <= self.docs.len(),
                docs_view(out@) == crate::model::permitted_docs(
                    docs_view(self.docs@).subrange(0, k as int),
                    role,
                    caller@,
                ),
            decreases self.docs.len() - k,
        {
            let ghost dv = docs_view(self.docs@);
            let ghost k0 = k as int;
            let doc = &self.docs[k];
            if has_access_to_document(&role, &doc.access_level, &doc.owner, caller) {
                out.push(doc.clone());
            }
            k += 1;
            proof {
                assert(dv.subrange(0, k0 + 1).drop_last() =~= dv.subrange(0, k0));
                assert(dv.subrange(0, k0 + 1).last() == dv[k0]);
                assert(dv.subrange(0, k0 + 1).len() != 0);
                if crate::policy::read_permit(role, dv[k0].access_level, dv[k0].owner, caller@) {
                    assert(docs_view(out@) =~= crate::model::permitted_docs(
                        dv.subrange(0, k0),
                        role,
                        caller@,
                    ).push(dv[k0]));
                }
            }
        }
        proof {
            assert(docs_view(self.docs@).subrange(0, self.docs@.len() as int) =~= docs_view(
                self.docs@,
            ));
        }
        out
    }

    /// First-ever initialization: bootstraps an Admin profile for the
    /// initializing caller. Once any profile exists, initialization is a
    /// no-op: an upgrade never overwrites state.
    pub fn init(&mut self, caller: &Principal, now: u64)
        requires
            old(self)@.wf(),
        ensures
            final(self)@.wf(),
            final(self)@ == init_state(old(self)@, caller@, now),
    {
        let ghost s0 = self@;
        if self.users.len() == 0 {
            let profile = UserProfile {
                principal: caller.clone(),
                role: UserRole::Admin,
                display_name: Option::Some(String::from_str("System Admin")),
                email: Option::None,
                created_at: now,
                updated_at: now,
            };
            let ghost pv = profile@;
            self.users.push(profile);
            proof {
                assert(pv == crate::model::bootstrap_profile_v(caller@, now));
                assert(profiles_view(self.users@) =~= seq![pv]);
                assert(self@ == init_state(s0, caller@, now));
            }
        }
    }

    /// Self-registration: refused with AlreadyRegistered when the caller
    /// already has a profile (which is then left untouched, timestamps
    /// included); otherwise a profile with the requested role is created
    /// with `created_at == updated_at == now` and returned.
    pub fn register_user(
        &mut self,
        caller: &Principal,
        request: RegisterUserRequest,
        now: u64,
    ) -> (r: Result<UserProfile, RepoError>)
        requires
            old(self)@.wf(),
        ensures
            final(self)@.wf(),
            final(self)@ == register_state(old(self)@, caller@, request@, now),
            result_profile_view(r) == register_result(old(self)@, caller@, request@, now),
    {
        let ghost s0 = self@;
        let ghost reqv = request@;
        match find_user(&self.users, caller) {
            Option::Some(i) => {
                proof {
                    lemma_user_found(s0, caller@, i as int);
                }
                Result::Err(RepoError::AlreadyRegistered)
            },
            Option::None => {
                proof {
                    assert(!s0.has_user(caller@));
                }
                let profile = UserProfile {
                    principal: caller.clone(),
                    role: request.role,
                    display_name: request.display_name,
                    email: request.email,
                    created_at: now,
                    updated_at: now,
                };
                let out = profile.clone();
                let ghost pv = profile@;
                self.users.push(profile);
                proof {
                    assert(pv == crate::model::new_profile_v(caller@, reqv, now));
                    assert(profiles_view(self.users@) =~= s0.users.push(pv));
                    assert forall|a: int, b: int|
                        0 <= a < b < self@.users.len() implies self@.users[a].principal
                        != self@.users[b].principal by {
                        if b < s0.users.len() {
                            assert(s0.users[a].principal != s0.users[b].principal);
                        } else {
                            assert(s0.users[a].principal != caller@);
                        }
                    }
                    assert(self@.docs == s0.docs);
                    assert(self@.chunks == s0.chunks);
                    assert(self@.wf());
                }
                Result::Ok(out)
            },
        }
    }

    /// Role assignment: Admin-only; fails with NotFound when the target
    /// has no profile; on success the target's role is overwritten, its
    /// `updated_at` refreshed, and the updated profile returned.
    pub fn assign_role(
        &mut self,
        caller: &Principal,
        target: &Principal,
        new_role: UserRole,
        now: u64,
    ) -> (r: Result<UserProfile, RepoError>)
        requires
            old(self)@.wf(),
        ensures
            final(self)@.wf(),
            final(self)@ == assign_state(old(self)@, caller@, target@, new_role, now),
            result_profile_view(r) == assign_result(old(self)@, caller@, target@, new_role, now),
    {
        let ghost s0 = self@;
        let caller_is_admin: bool = match find_user(&self.users, caller) {
            Option::Some(i) => {
                proof {
                    lemma_user_found(s0, caller@, i as int);
                }
                matches!(self.users[i].role, UserRole::Admin)
            },
            Option::None => {
                proof {
                    assert(!s0.has_user(caller@));
                }
                false
            },
        };
        proof {
            assert(caller_is_admin == crate::model::is_admin(s0, caller@));
        }
        if !caller_is_admin {
            return Result::Err(RepoError::NotAuthorized);
        }
        match find_user(&self.users, target) {
            Option::None => {
                proof {
                    assert(!s0.has_user(target@));
                }
                Result::Err(RepoError::NotFound)
            },
            Option::Some(i) => {
                proof {
                    lemma_user_found(s0, target@, i as int);
                }
                let mut p = self.users[i].clone();
                p.role = new_role;
                p.updated_at = now;
                let out = p.clone();
                let ghost pv = p@;
                self.users[i] = p;
                proof {
                    assert(pv == crate::model::reassigned_profile_v(
                        s0.user_at(target@),
                        new_role,
                        now,
                    ));
                    assert(profiles_view(self.users@) =~= s0.users.update(i as int, pv));
                    assert forall|x: int|
                        0 <= x < self@.users.len() implies self@.users[x].principal
                        == s0.users[x].principal by {}
                    assert forall|a: int, b: int|
                        0 <= a < b < self@.users.len() implies self@.users[a].principal
                        != self@.users[b].principal by {
                        assert(s0.users[a].principal != s0.users[b].principal);
                    }
                    assert(self@.docs == s0.docs);
                    assert(self@.chunks == s0.chunks);
                    assert(self@.wf());
                }
                Result::Ok(out)
            },
        }
    }

    /// Upload: the caller must be registered and the (role, access
    /// level) pair admissible per the upload matrix. The metadata record
    /// is written first, then the single payload chunk at index 0, each
    /// overwriting any record under the same key; the returned
    /// metadata's `size` equals the length of the uploaded data.
    pub fn upload_document(
        &mut self,
        caller: &Principal,
        request: UploadDocumentRequest,
        now: u64,
    ) -> (r: Result<DocumentMetadata, RepoError>)
        requires
            old(self)@.wf(),
        ensures
            final(self)@.wf(),
            final(self)@ == upload_state(old(self)@, caller@, request@, now),
            result_metadata_view(r) == upload_result(old(self)@, caller@, request@, now),
    {
        let ghost s0 = self@;
        let ghost reqv = request@;
        let role: UserRole = match find_user(&self.users, caller) {
            Option::Some(i) => {
                proof {
                    lemma_user_found(s0, caller@, i as int);
                }
                self.users[i].role
            },
            Option::None => {
                proof {
                    assert(!s0.has_user(caller@));
                }
                return Result::Err(RepoError::NotRegistered);
            },
        };
        if !can_upload(&role, &request.access_level) {
            return Result::Err(RepoError::NotAuthorized);
        }
        let document_id = crate::docid::generate_document_id(request.name.as_str(), caller, now);
        let size = request.data.len() as u64;
        let metadata = DocumentMetadata {
            id: document_id.clone(),
            name: request.name,
            description: request.description,
            file_type: request.file_type,
            size,
            owner: caller.clone(),
            access_level: request.access_level,
            created_at: now,
            updated_at: now,
            tags: request.tags,
        };
        let chunk = DocumentChunk { document_id, chunk_index: 0, data: request.data };
        let ghost mv = metadata@;
        let ghost cv = chunk@;
        proof {
            assert(mv.tags =~= reqv.tags);
            assert(mv == crate::model::new_metadata_v(caller@, reqv, now));
            assert(cv == crate::model::new_chunk_v(caller@, reqv, now));
        }
        let out = metadata.clone();
        match find_doc(&self.docs, &metadata.id) {
            Option::Some(i) => {
                proof {
                    lemma_doc_found(s0, mv.id, i as int);
                }
                self.docs[i] = metadata;
                proof {
                    assert(docs_view(self.docs@) =~= crate::model::upsert_doc(s0, mv));
                    assert forall|x: int|
                        0 <= x < docs_view(self.docs@).len() implies docs_view(self.docs@)[x].id
                        == s0.docs[x].id by {}
                    assert forall|a: int, b: int|
                        0 <= a < b < docs_view(self.docs@).len() implies docs_view(
                            self.docs@,
                        )[a].id != docs_view(self.docs@)[b].id by {
                        assert(s0.docs[a].id != s0.docs[b].id);
                    }
                }
            },
            Option::None => {
                proof {
                    assert(!s0.has_doc(mv.id));
                }
                self.docs.push(metadata);
                proof {
                    assert(docs_view(self.docs@) =~= crate::model::upsert_doc(s0, mv));
                    assert forall|a: int, b: int|
                        0 <= a < b < docs_view(self.docs@).len() implies docs_view(
                            self.docs@,
                        )[a].id != docs_view(self.docs@)[b].id by {
                        if b < s0.docs.len() {
                            assert(s0.docs[a].id != s0.docs[b].id);
                        } else {
                            assert(s0.docs[a].id != mv.id);
                        }
                    }
                }
            },
        }
        match find_chunk(&self.chunks, &chunk.document_id, 0) {
            Option::Some(i) => {
                proof {
                    lemma_chunk_found(s0, cv.document_id, 0, i as int);
                }
                self.chunks[i] = chunk;
                proof {
                    assert(chunks_view(self.chunks@) =~= crate::model::upsert_chunk(s0, cv));
                    assert forall|a: int, b: int|
                        0 <= a < b < chunks_view(self.chunks@).len() implies !(chunks_view(
                            self.chunks@,
                        )[a].document_id == chunks_view(self.chunks@)[b].document_id && chunks_view(
                            self.chunks@,
                        )[a].chunk_index == chunks_view(self.chunks@)[b].chunk_index) by {
                        assert(!(s0.chunks[a].document_id == s0.chunks[b].document_id
                            && s0.chunks[a].chunk_index == s0.chunks[b].chunk_index));
                    }
                }
            },
            Option::None => {
                proof {
                    assert(!s0.has_chunk(cv.document_id, 0));
                }
                self.chunks.push(chunk);
                proof {
                    assert(chunks_view(self.chunks@) =~= crate::model::upsert_chunk(s0, cv));
                    assert forall|a: int, b: int|
                        0 <= a < b < chunks_view(self.chunks@).len() implies !(chunks_view(
                            self.chunks@,
                        )[a].document_id == chunks_view(self.chunks@)[b].document_id && chunks_view(
                            self.chunks@,
                        )[a].chunk_index == chunks_view(self.chunks@)[b].chunk_index) by {
                        if b < s0.chunks.len() {
                            assert(!(s0.chunks[a].document_id == s0.chunks[b].document_id
                                && s0.chunks[a].chunk_index == s0.chunks[b].chunk_index));
                        } else {
                            assert(!(s0.chunks[a].document_id == cv.document_id
                                && s0.chunks[a].chunk_index == cv.chunk_index));
                        }
                    }
                }
            },
        }
        proof {
            assert(self@ == upload_state(s0, caller@, reqv, now));
        }
        Result::Ok(out)
    }

    /// Rebuilds a repository from persisted records, in their stored
    /// order. Returns None exactly when the records do not form a
    /// well-formed state (some key occurs twice); otherwise the rebuilt
    /// repository holds exactly the given records.
    pub fn from_parts(
        users: Vec<UserProfile>,
        docs: Vec<DocumentMetadata>,
        chunks: Vec<DocumentChunk>,
    ) -> (r: Option<Repository>)
        ensures
            match r {
                Option::Some(repo) => repo@ == (RepoV {
                    users: profiles_view(users@),
                    docs: docs_view(docs@),
                    chunks: chunks_view(chunks@),
                }) && repo@.wf(),
                Option::None => !(RepoV {
                    users: profiles_view(users@),
                    docs: docs_view(docs@),
                    chunks: chunks_view(chunks@),
                }).wf(),
            },
    {
        let du = distinct_principals(&users);
        let dd = distinct_doc_ids(&docs);
        let dc = distinct_chunk_records(&chunks);
        if du && dd && dc {
            let repo = Repository { users, docs, chunks };
            proof {
                assert(repo@.users == profiles_view(users@));
                assert(repo@.docs == docs_view(docs@));
                assert(repo@.chunks == chunks_view(chunks@));
                assert(repo@.wf());
            }
            Option::Some(repo)
        } else {
            proof {
                assert(!(RepoV {
                    users: profiles_view(users@),
                    docs: docs_view(docs@),
                    chunks: chunks_view(chunks@),
                }).wf());
            }
            Option::None
        }
    }
}

} // verus!
