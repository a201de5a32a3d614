//! Core data types of the repository and their mathematical views.

use vstd::prelude::*;

verus! {

/// A caller's privilege class. Privilege is not ordered: what a role may
/// do is given by the policy matrices, not by a rank.
#[derive(Clone, Copy, Debug, PartialEq, Eq, Structural)]
pub enum UserRole {
    Admin,
    Investor,
    Business,
    Guest,
}

/// A document's declared sensitivity class; governs which roles may read it.
#[derive(Clone, Copy, Debug, PartialEq, Eq, Structural)]
pub enum AccessLevel {
    Public,
    Investment,
    Business,
    Private,
}

/// The reasons an operation can be refused.
#[derive(Clone, Copy, Debug, PartialEq, Eq, Structural)]
pub enum RepoError {
    /// The caller has no profile and the operation requires one.
    NotRegistered,
    /// The caller already has a profile.
    AlreadyRegistered,
    /// The caller's role does not admit the operation, or the requested
    /// (role, access level) pair is inadmissible for upload.
    NotAuthorized,
    /// The target principal or document id does not exist.
    NotFound,
    /// The read policy denies access to this document.
    AccessDenied,
    /// Metadata is present but the payload chunk is absent.
    PayloadMissing,
}

/// The opaque, stable, byte-equal identity of a caller, as the transport
/// supplies it. Equality is byte-exact.
#[derive(Debug, PartialEq, Eq)]
pub struct Principal {
    pub bytes: Vec<u8>,
}

impl View for Principal {
    type V = Seq<u8>;

    open spec fn view(&self) -> Seq<u8> {
        self.bytes@
    }
}

/// Copies a byte vector; the copy has the same bytes.
pub fn clone_bytes(v: &Vec<u8>) -> (r: Vec<u8>)
    ensures
        r@ == v@,
{
    let mut r: Vec<u8> = Vec::new();
    let mut i: usize = 0;
    while i < v.len()
        invariant
            i <= v.len(),
            r@ == v@.subrange(0, i as int),
        decreases v.len() - i,
    {
        r.push(v[i]);
        i += 1;
        proof {
            assert(r@ =~= v@.subrange(0, i as int));
        }
    }
    proof {
        assert(r@ =~= v@);
    }
    r
}

/// Copies a vector of strings; the copy holds the same strings.
pub fn clone_strings(v: &Vec<String>) -> (r: Vec<String>)
    ensures
        r@ == v@,
{
    let mut r: Vec<String> = Vec::new();
    let mut i: usize = 0;
    while i < v.len()
        invariant
            i <= v.len(),
            r@ == v@.subrange(0, i as int),
        decreases v.len() - i,
    {
        r.push(v[i].clone());
        i += 1;
        proof {
            assert(r@ =~= v@.subrange(0, i as int));
        }
    }
    proof {
        assert(r@ =~= v@);
    }
    r
}

/// Copies an optional string; the copy holds the same characters.
pub fn clone_opt_string(o: &Option<String>) -> (r: Option<String>)
    ensures
        r == o,
{
    match o {
        Option::Some(s) => Option::Some(s.clone()),
        Option::None => Option::None,
    }
}

impl Principal {
    pub fn new(bytes: Vec<u8>) -> (r: Principal)
        ensures
            r@ == bytes@,
    {
        Principal { bytes }
    }

    /// Byte-exact equality of two principals.
    pub fn equals(&self, other: &Principal) -> (r: bool)
        ensures
            r == (self@ == other@),
    {
        let a = &self.bytes;
        let b = &other.bytes;
        if a.len() != b.len() {
            return false;
        }
        let mut i: usize = 0;
        while i < a.len()
            invariant
                i <= a.len(),
                a.len() == b.len(),
                a@ == self@,
                b@ == other@,
                forall|j: int| 0 <= j < i ==> a@[j] == b@[j],
            decreases a.len() - i,
        {
            if a[i] != b[i] {
                return false;
            }
            i += 1;
        }
        proof {
            assert(self@ =~= other@);
        }
        true
    }
}

impl Clone for Principal {
    fn clone(&self) -> (r: Self)
        ensures
            r@ == self@,
    {
        Principal { bytes: clone_bytes(&self.bytes) }
    }
}

/// The mathematical value of a [`UserProfile`].
pub struct UserProfileV {
    pub principal: Seq<u8>,
    pub role: UserRole,
    pub display_name: Option<Seq<char>>,
    pub email: Option<Seq<char>>,
    pub created_at: u64,
    pub updated_at: u64,
}

/// The view of an optional string: the characters, if any.
pub open spec fn opt_str_view(o: Option<String>) -> Option<Seq<char>> {
    match o {
        Option::Some(s) => Option::Some(s@),
        Option::None => Option::None,
    }
}

/// A registered caller: identity, role and self-description.
#[derive(Debug, PartialEq, Eq)]
pub struct UserProfile {
    pub principal: Principal,
    pub role: UserRole,
    pub display_name: Option<String>,
    pub email: Option<String>,
    pub created_at: u64,
    pub updated_at: u64,
}

impl View for UserProfile {
    type V = UserProfileV;

    open spec fn view(&self) -> UserProfileV {
        UserProfileV {
            principal: self.principal@,
            role: self.role,
            display_name: opt_str_view(self.display_name),
            email: opt_str_view(self.email),
            created_at: self.created_at,
            updated_at: self.updated_at,
        }
    }
}

impl Clone for UserProfile {
    fn clone(&self) -> (r: Self)
        ensures
            r@ == self@,
    {
        UserProfile {
            principal: self.principal.clone(),
            role: self.role,
            display_name: clone_opt_string(&self.display_name),
            email: clone_opt_string(&self.email),
            created_at: self.created_at,
            updated_at: self.updated_at,
        }
    }
}

/// The mathematical value of a [`DocumentMetadata`].
pub struct DocumentMetadataV {
    pub id: Seq<char>,
    pub name: Seq<char>,
    pub description: Option<Seq<char>>,
    pub file_type: Seq<char>,
    pub size: u64,
    pub owner: Seq<u8>,
    pub access_level: AccessLevel,
    pub created_at: u64,
    pub updated_at: u64,
    pub tags: Seq<Seq<char>>,
}

/// The record describing one stored document. `size` equals the byte
/// length of the stored payload; `id` is derived from name, owner and
/// creation time and is content-independent.
#[derive(Debug, PartialEq, Eq)]
pub struct DocumentMetadata {
    pub id: String,
    pub name: String,
    pub description: Option<String>,
    pub file_type: String,
    pub size: u64,
    pub owner: Principal,
    pub access_level: AccessLevel,
    pub created_at: u64,
    pub updated_at: u64,
    pub tags: Vec<String>,
}

impl View for DocumentMetadata {
    type V = DocumentMetadataV;

    open spec fn view(&self) -> DocumentMetadataV {
        DocumentMetadataV {
            id: self.id@,
            name: self.name@,
            description: opt_str_view(self.description),
            file_type: self.file_type@,
            size: self.size,
            owner: self.owner@,
            access_level: self.access_level,
            created_at: self.created_at,
            updated_at: self.updated_at,
            tags: self.tags@.map_values(|s: String| s@),
        }
    }
}

impl Clone for DocumentMetadata {
    fn clone(&self) -> (r: Self)
        ensures
            r@ == self@,
    {
        let r = DocumentMetadata {
            id: self.id.clone(),
            name: self.name.clone(),
            description: clone_opt_string(&self.description),
            file_type: self.file_type.clone(),
            size: self.size,
            owner: self.owner.clone(),
            access_level: self.access_level,
            created_at: self.created_at,
            updated_at: self.updated_at,
            tags: clone_strings(&self.tags),
        };
        proof {
            assert(r@.tags =~= self@.tags);
        }
        r
    }
}

/// The mathematical value of a [`DocumentChunk`].
pub struct DocumentChunkV {
    pub document_id: Seq<char>,
    pub chunk_index: u32,
    pub data: Seq<u8>,
}

/// One payload fragment. In the durable store a chunk is keyed by the
/// composite key `"{document_id}:{chunk_index}"` rendered as text; this
/// schema stores exactly one chunk per document, at index 0.
#[derive(Debug, PartialEq, Eq)]
pub struct DocumentChunk {
    pub document_id: String,
    pub chunk_index: u32,
    pub data: Vec<u8>,
}

impl View for DocumentChunk {
    type V = DocumentChunkV;

    open spec fn view(&self) -> DocumentChunkV {
        DocumentChunkV {
            document_id: self.document_id@,
            chunk_index: self.chunk_index,
            data: self.data@,
        }
    }
}

impl Clone for DocumentChunk {
    fn clone(&self) -> (r: Self)
        ensures
            r@ == self@,
    {
        DocumentChunk {
            document_id: self.document_id.clone(),
            chunk_index: self.chunk_index,
            data: clone_bytes(&self.data),
        }
    }
}

/// The mathematical value of a [`RegisterUserRequest`].
pub struct RegisterUserRequestV {
    pub role: UserRole,
    pub display_name: Option<Seq<char>>,
    pub email: Option<Seq<char>>,
}

/// The arguments of a self-registration.
#[derive(Debug, PartialEq, Eq)]
pub struct RegisterUserRequest {
    pub role: UserRole,
    pub display_name: Option<String>,
    pub email: Option<String>,
}

impl View for RegisterUserRequest {
    type V = RegisterUserRequestV;

    open spec fn view(&self) -> RegisterUserRequestV {
        RegisterUserRequestV {
            role: self.role,
            display_name: opt_str_view(self.display_name),
            email: opt_str_view(self.email),
        }
    }
}

/// The mathematical value of an [`UploadDocumentRequest`].
pub struct UploadDocumentRequestV {
    pub name: Seq<char>,
    pub description: Option<Seq<char>>,
    pub file_type: Seq<char>,
    pub access_level: AccessLevel,
    pub data: Seq<u8>,
    pub tags: Seq<Seq<char>>,
}

/// The arguments of a document upload.
#[derive(Debug, PartialEq, Eq)]
pub struct UploadDocumentRequest {
    pub name: String,
    pub description: Option<String>,
    pub file_type: String,
    pub access_level: AccessLevel,
    pub data: Vec<u8>,
    pub tags: Vec<String>,
}

impl View for UploadDocumentRequest {
    type V = UploadDocumentRequestV;

    open spec fn view(&self) -> UploadDocumentRequestV {
        UploadDocumentRequestV {
            name: self.name@,
            description: opt_str_view(self.description),
            file_type: self.file_type@,
            access_level: self.access_level,
            data: self.data@,
            tags: self.tags@.map_values(|s: String| s@),
        }
    }
}

/// The discriminated envelope every externally invoked operation answers
/// with: on success `data` is present and `error` absent; on failure the
/// converse.
#[derive(Debug)]
pub struct ApiResponse<T> {
    pub success: bool,
    pub data: Option<T>,
    pub error: Option<String>,
}

impl<T> ApiResponse<T> {
    /// A successful envelope around `data`.
    pub fn ok(data: T) -> (r: ApiResponse<T>)
        ensures
            r.success,
            r.data == Option::Some(data),
            r.error is None,
    {
        ApiResponse { success: true, data: Option::Some(data), error: Option::None }
    }

    /// A failed envelope carrying `message`.
    pub fn err(message: String) -> (r: ApiResponse<T>)
        ensures
            !r.success,
            r.data is None,
            r.error == Option::Some(message),
    {
        ApiResponse { success: false, data: Option::None, error: Option::Some(message) }
    }
}

impl RepoError {
    /// A human-readable description; the taxonomy is normative, the
    /// wording is not.
    pub fn message(&self) -> (r: String)
        ensures
            *self == RepoError::NotRegistered ==> r@ == "User not registered"@,
            *self == RepoError::AlreadyRegistered ==> r@ == "User already registered"@,
            *self == RepoError::NotAuthorized ==> r@ == "Insufficient permissions"@,
            *self == RepoError::NotFound ==> r@ == "Not found"@,
            *self == RepoError::AccessDenied ==> r@ == "Access denied"@,
            *self == RepoError::PayloadMissing ==> r@ == "Document data not found"@,
    {
        match self {
            RepoError::NotRegistered => String::from_str("User not registered"),
            RepoError::AlreadyRegistered => String::from_str("User already registered"),
            RepoError::NotAuthorized => String::from_str("Insufficient permissions"),
            RepoError::NotFound => String::from_str("Not found"),
            RepoError::AccessDenied => String::from_str("Access denied"),
            RepoError::PayloadMissing => String::from_str("Document data not found"),
        }
    }
}

} // verus!
