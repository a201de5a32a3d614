//! The policy matrices, document-id derivation, and the response
//! envelope, on concrete values.

use docrepo::docid::{generate_document_id, u64_to_decimal};
use docrepo::policy::{can_upload, has_access_to_document};
use docrepo::types::{AccessLevel, ApiResponse, Principal, RepoError, UserRole};
use sha2::{Digest, Sha256};

#[test]
fn test_read_permit_matrix() {
    let owner = Principal { bytes: vec![7] };
    let other = Principal { bytes: vec![8] };
    let roles = [
        UserRole::Admin,
        UserRole::Investor,
        UserRole::Business,
        UserRole::Guest,
    ];
    // Public: everyone.
    for r in roles.iter() {
        assert!(has_access_to_document(r, &AccessLevel::Public, &owner, &other));
    }
    // Investment: Admin and Investor only.
    assert!(has_access_to_document(&UserRole::Admin, &AccessLevel::Investment, &owner, &other));
    assert!(has_access_to_document(&UserRole::Investor, &AccessLevel::Investment, &owner, &other));
    assert!(!has_access_to_document(&UserRole::Business, &AccessLevel::Investment, &owner, &other));
    assert!(!has_access_to_document(&UserRole::Guest, &AccessLevel::Investment, &owner, &other));
    // Business: Admin, Business and Investor; the Investor permit is the
    // deliberate asymmetry against the Investment row.
    assert!(has_access_to_document(&UserRole::Admin, &AccessLevel::Business, &owner, &other));
    assert!(has_access_to_document(&UserRole::Business, &AccessLevel::Business, &owner, &other));
    assert!(has_access_to_document(&UserRole::Investor, &AccessLevel::Business, &owner, &other));
    assert!(!has_access_to_document(&UserRole::Guest, &AccessLevel::Business, &owner, &other));
    // Private: Admin, or the owner whatever their role.
    assert!(has_access_to_document(&UserRole::Admin, &AccessLevel::Private, &owner, &other));
    for r in [UserRole::Investor, UserRole::Business, UserRole::Guest].iter() {
        assert!(!has_access_to_document(r, &AccessLevel::Private, &owner, &other));
        assert!(has_access_to_document(r, &AccessLevel::Private, &owner, &owner));
    }
}

#[test]
fn test_upload_matrix() {
    let tiers = [
        AccessLevel::Public,
        AccessLevel::Investment,
        AccessLevel::Business,
        AccessLevel::Private,
    ];
    for t in tiers.iter() {
        assert!(can_upload(&UserRole::Admin, t));
    }
    assert!(!can_upload(&UserRole::Business, &AccessLevel::Public));
    assert!(!can_upload(&UserRole::Business, &AccessLevel::Investment));
    assert!(can_upload(&UserRole::Business, &AccessLevel::Business));
    assert!(can_upload(&UserRole::Business, &AccessLevel::Private));
    assert!(!can_upload(&UserRole::Investor, &AccessLevel::Public));
    assert!(can_upload(&UserRole::Investor, &AccessLevel::Investment));
    assert!(!can_upload(&UserRole::Investor, &AccessLevel::Business));
    assert!(can_upload(&UserRole::Investor, &AccessLevel::Private));
    assert!(can_upload(&UserRole::Guest, &AccessLevel::Public));
    assert!(!can_upload(&UserRole::Guest, &AccessLevel::Investment));
    assert!(!can_upload(&UserRole::Guest, &AccessLevel::Business));
    assert!(!can_upload(&UserRole::Guest, &AccessLevel::Private));
}

#[test]
fn test_document_id_matches_digest() {
    let owner = Principal { bytes: vec![1, 2, 3] };
    let id = generate_document_id("report", &owner, 12345);
    let mut hasher = Sha256::new();
    hasher.update("report".as_bytes());
    hasher.update(&[1u8, 2, 3]);
    hasher.update("12345".as_bytes());
    let expected = format!("{:x}", hasher.finalize());
    assert_eq!(id, expected);
    assert_eq!(id.len(), 64);
}

#[test]
fn test_distinct_timestamps_distinct_ids() {
    let owner = Principal { bytes: vec![1, 2, 3] };
    let a = generate_document_id("same-name", &owner, 1000);
    let b = generate_document_id("same-name", &owner, 1001);
    assert_ne!(a, b);
}

#[test]
fn test_decimal_rendering() {
    assert_eq!(u64_to_decimal(0), "0");
    assert_eq!(u64_to_decimal(7), "7");
    assert_eq!(u64_to_decimal(10), "10");
    assert_eq!(u64_to_decimal(1234567890), "1234567890");
    assert_eq!(u64_to_decimal(u64::MAX), "18446744073709551615");
}

#[test]
fn test_error_messages() {
    assert_eq!(RepoError::NotRegistered.message(), "User not registered");
    assert_eq!(RepoError::AlreadyRegistered.message(), "User already registered");
    assert_eq!(RepoError::NotAuthorized.message(), "Insufficient permissions");
    assert_eq!(RepoError::NotFound.message(), "Not found");
    assert_eq!(RepoError::AccessDenied.message(), "Access denied");
    assert_eq!(RepoError::PayloadMissing.message(), "Document data not found");
}

#[test]
fn test_api_response_envelope() {
    let ok: ApiResponse<u32> = ApiResponse::ok(5);
    assert!(ok.success);
    assert_eq!(ok.data, Some(5));
    assert_eq!(ok.error, None);
    let err: ApiResponse<u32> = ApiResponse::err("broken".to_string());
    assert!(!err.success);
    assert_eq!(err.data, None);
    assert_eq!(err.error.as_deref(), Some("broken"));
}
