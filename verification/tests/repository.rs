//! End-to-end scenarios over the repository.

use docrepo::store::Repository;
use docrepo::types::{
    AccessLevel, DocumentMetadata, Principal, RegisterUserRequest, RepoError,
    UploadDocumentRequest, UserRole,
};

fn principal(b: u8) -> Principal {
    Principal { bytes: vec![b; 29] }
}

fn register(role: UserRole) -> RegisterUserRequest {
    RegisterUserRequest { role, display_name: None, email: None }
}

fn upload(name: &str, level: AccessLevel, data: Vec<u8>) -> UploadDocumentRequest {
    UploadDocumentRequest {
        name: name.to_string(),
        description: None,
        file_type: "text/plain".to_string(),
        access_level: level,
        data,
        tags: vec![],
    }
}

#[test]
fn test_bootstrap_admin_profile() {
    let mut repo = Repository::new();
    let pa = principal(1);
    let pb = principal(2);
    repo.init(&pa, 100);
    let prof = repo.get_user_profile(&pa).unwrap();
    assert_eq!(prof.role, UserRole::Admin);
    assert_eq!(prof.display_name.as_deref(), Some("System Admin"));
    assert_eq!(prof.email, None);
    assert_eq!(prof.created_at, 100);
    assert_eq!(prof.updated_at, 100);
    assert_eq!(repo.get_user_profile(&pb), Err(RepoError::NotFound));
}

#[test]
fn test_init_noop_when_users_exist() {
    let mut repo = Repository::new();
    let pa = principal(1);
    let pb = principal(2);
    repo.init(&pa, 100);
    repo.init(&pb, 999);
    assert_eq!(repo.get_user_profile(&pb), Err(RepoError::NotFound));
    assert_eq!(repo.get_user_profile(&pa).unwrap().created_at, 100);
}

#[test]
fn test_register_then_privileged_denial() {
    let mut repo = Repository::new();
    let pa = principal(1);
    let pb = principal(2);
    repo.init(&pa, 100);
    let prof = repo.register_user(&pb, register(UserRole::Business), 200).unwrap();
    assert_eq!(prof.role, UserRole::Business);
    assert_eq!(repo.list_users(&pb), Err(RepoError::NotAuthorized));
    let all = repo.list_users(&pa).unwrap();
    assert_eq!(all.len(), 2);
    assert_eq!(all[0].principal, pa);
    assert_eq!(all[1].principal, pb);
}

#[test]
fn test_register_twice_preserves_profile() {
    let mut repo = Repository::new();
    let pb = principal(2);
    let first = repo.register_user(&pb, register(UserRole::Business), 200).unwrap();
    let second = repo.register_user(&pb, register(UserRole::Admin), 900);
    assert_eq!(second, Err(RepoError::AlreadyRegistered));
    let stored = repo.get_user_profile(&pb).unwrap();
    assert_eq!(stored, first);
    assert_eq!(stored.role, UserRole::Business);
    assert_eq!(stored.created_at, 200);
    assert_eq!(stored.updated_at, 200);
}

#[test]
fn test_upload_and_cross_role_read() {
    let mut repo = Repository::new();
    let pa = principal(1);
    let pb = principal(2);
    let pc = principal(3);
    repo.init(&pa, 100);
    repo.register_user(&pb, register(UserRole::Business), 200).unwrap();
    repo.register_user(&pc, register(UserRole::Investor), 300).unwrap();
    let d1 = repo
        .upload_document(&pb, upload("d1", AccessLevel::Business, vec![0x48, 0x49]), 400)
        .unwrap();
    assert_eq!(d1.size, 2);
    assert_eq!(d1.owner, pb);
    assert_eq!(repo.download_document(&pc, &d1.id), Ok(vec![0x48, 0x49]));
    let d2 = repo
        .upload_document(&pc, upload("d2", AccessLevel::Investment, vec![1, 2, 3]), 500)
        .unwrap();
    assert_eq!(repo.download_document(&pb, &d2.id), Err(RepoError::AccessDenied));
}

#[test]
fn test_private_document() {
    let mut repo = Repository::new();
    let pa = principal(1);
    let pb = principal(2);
    let pc = principal(3);
    repo.init(&pa, 100);
    repo.register_user(&pb, register(UserRole::Business), 200).unwrap();
    repo.register_user(&pc, register(UserRole::Investor), 300).unwrap();
    let d3 = repo
        .upload_document(&pb, upload("d3", AccessLevel::Private, vec![9, 8, 7]), 400)
        .unwrap();
    assert_eq!(repo.download_document(&pc, &d3.id), Err(RepoError::AccessDenied));
    assert_eq!(repo.download_document(&pa, &d3.id), Ok(vec![9, 8, 7]));
    assert_eq!(repo.download_document(&pb, &d3.id), Ok(vec![9, 8, 7]));
}

#[test]
fn test_role_reassignment() {
    let mut repo = Repository::new();
    let pa = principal(1);
    let pb = principal(2);
    repo.init(&pa, 100);
    repo.register_user(&pb, register(UserRole::Business), 200).unwrap();
    let updated = repo.assign_role(&pa, &pb, UserRole::Investor, 600).unwrap();
    assert_eq!(updated.role, UserRole::Investor);
    assert_eq!(updated.created_at, 200);
    assert_eq!(updated.updated_at, 600);
    let denied = repo.upload_document(&pb, upload("x", AccessLevel::Business, vec![1]), 700);
    assert_eq!(denied, Err(RepoError::NotAuthorized));
    let ok = repo.upload_document(&pb, upload("x", AccessLevel::Investment, vec![1]), 800);
    assert!(ok.is_ok());
}

#[test]
fn test_assign_role_errors() {
    let mut repo = Repository::new();
    let pa = principal(1);
    let pb = principal(2);
    let pd = principal(4);
    repo.init(&pa, 100);
    repo.register_user(&pb, register(UserRole::Business), 200).unwrap();
    assert_eq!(
        repo.assign_role(&pb, &pa, UserRole::Guest, 300),
        Err(RepoError::NotAuthorized)
    );
    assert_eq!(
        repo.assign_role(&pd, &pb, UserRole::Guest, 300),
        Err(RepoError::NotAuthorized)
    );
    assert_eq!(
        repo.assign_role(&pa, &pd, UserRole::Guest, 300),
        Err(RepoError::NotFound)
    );
}

#[test]
fn test_assign_same_role_preserves_reads() {
    let mut repo = Repository::new();
    let pa = principal(1);
    let pb = principal(2);
    repo.init(&pa, 100);
    repo.register_user(&pb, register(UserRole::Business), 200).unwrap();
    let d = repo
        .upload_document(&pb, upload("d", AccessLevel::Business, vec![5]), 300)
        .unwrap();
    let before = repo.download_document(&pb, &d.id);
    repo.assign_role(&pa, &pb, UserRole::Business, 400).unwrap();
    let after = repo.download_document(&pb, &d.id);
    assert_eq!(before, after);
}

#[test]
fn test_zero_byte_upload() {
    let mut repo = Repository::new();
    let pb = principal(2);
    repo.register_user(&pb, register(UserRole::Business), 200).unwrap();
    let d = repo
        .upload_document(&pb, upload("empty", AccessLevel::Private, vec![]), 300)
        .unwrap();
    assert_eq!(d.size, 0);
    assert_eq!(repo.download_document(&pb, &d.id), Ok(vec![]));
}

#[test]
fn test_upload_requires_registration() {
    let mut repo = Repository::new();
    let pd = principal(4);
    let denied = repo.upload_document(&pd, upload("x", AccessLevel::Public, vec![1]), 100);
    assert_eq!(denied, Err(RepoError::NotRegistered));
}

#[test]
fn test_download_not_found() {
    let repo = Repository::new();
    let pd = principal(4);
    assert_eq!(
        repo.download_document(&pd, &"no-such-id".to_string()),
        Err(RepoError::NotFound)
    );
}

#[test]
fn test_payload_missing() {
    let meta = DocumentMetadata {
        id: "abc".to_string(),
        name: "n".to_string(),
        description: None,
        file_type: "t".to_string(),
        size: 1,
        owner: principal(1),
        access_level: AccessLevel::Public,
        created_at: 1,
        updated_at: 1,
        tags: vec![],
    };
    let repo = Repository::from_parts(vec![], vec![meta], vec![]).unwrap();
    assert_eq!(
        repo.download_document(&principal(2), &"abc".to_string()),
        Err(RepoError::PayloadMissing)
    );
}

#[test]
fn test_from_parts_rejects_duplicate_principals() {
    let mut repo = Repository::new();
    let pb = principal(2);
    repo.register_user(&pb, register(UserRole::Guest), 100).unwrap();
    let mut users = repo.users.clone();
    users.extend(repo.users.clone());
    assert!(Repository::from_parts(users, vec![], vec![]).is_none());
}

#[test]
fn test_list_documents_filtering() {
    let mut repo = Repository::new();
    let pa = principal(1);
    let pb = principal(2);
    let pc = principal(3);
    let pd = principal(4);
    repo.init(&pa, 100);
    repo.register_user(&pb, register(UserRole::Business), 200).unwrap();
    repo.register_user(&pc, register(UserRole::Investor), 300).unwrap();
    let pub_doc = repo
        .upload_document(&pa, upload("pub", AccessLevel::Public, vec![0]), 400)
        .unwrap();
    let inv_doc = repo
        .upload_document(&pa, upload("inv", AccessLevel::Investment, vec![1]), 500)
        .unwrap();
    let bus_doc = repo
        .upload_document(&pb, upload("bus", AccessLevel::Business, vec![2]), 600)
        .unwrap();
    let prv_doc = repo
        .upload_document(&pb, upload("prv", AccessLevel::Private, vec![3]), 700)
        .unwrap();

    let ids = |docs: Vec<DocumentMetadata>| -> Vec<String> {
        docs.into_iter().map(|d| d.id).collect()
    };
    assert_eq!(ids(repo.list_documents(&pd)), vec![pub_doc.id.clone()]);
    assert_eq!(
        ids(repo.list_documents(&pc)),
        vec![pub_doc.id.clone(), inv_doc.id.clone(), bus_doc.id.clone()]
    );
    assert_eq!(
        ids(repo.list_documents(&pb)),
        vec![pub_doc.id.clone(), bus_doc.id.clone(), prv_doc.id.clone()]
    );
    assert_eq!(
        ids(repo.list_documents(&pa)),
        vec![pub_doc.id, inv_doc.id, bus_doc.id, prv_doc.id]
    );
}

#[test]
fn test_repeated_reads_identical() {
    let mut repo = Repository::new();
    let pa = principal(1);
    repo.init(&pa, 100);
    let d = repo
        .upload_document(&pa, upload("d", AccessLevel::Public, vec![1, 2]), 200)
        .unwrap();
    assert_eq!(repo.get_user_profile(&pa), repo.get_user_profile(&pa));
    assert_eq!(
        repo.download_document(&pa, &d.id),
        repo.download_document(&pa, &d.id)
    );
}

#[test]
fn test_upgrade_persistence() {
    let mut repo = Repository::new();
    let pa = principal(1);
    let pb = principal(2);
    let pc = principal(3);
    repo.init(&pa, 100);
    repo.register_user(&pb, register(UserRole::Business), 200).unwrap();
    repo.register_user(&pc, register(UserRole::Investor), 300).unwrap();
    let d1 = repo
        .upload_document(&pb, upload("d1", AccessLevel::Business, vec![0x48, 0x49]), 400)
        .unwrap();
    let users_before = repo.list_users(&pa).unwrap();
    let bytes_before = repo.download_document(&pc, &d1.id).unwrap();

    let restored = Repository::from_parts(
        repo.users.clone(),
        repo.docs.clone(),
        repo.chunks.clone(),
    )
    .unwrap();
    assert_eq!(restored.list_users(&pa).unwrap(), users_before);
    assert_eq!(restored.download_document(&pc, &d1.id).unwrap(), bytes_before);
}
