use tcp_optimiser::integrity::{decode_sha256, parse_manifest};

#[test]
fn manifest_parser_rejects_traversal_and_duplicates() {
    let hash = "00".repeat(32);
    assert!(parse_manifest(format!("{hash}  ../module.prop\n").as_bytes()).is_err());
    assert!(parse_manifest(format!("{hash}  module.prop\n{hash}  module.prop\n").as_bytes()).is_err());
}

#[test]
fn manifest_parser_accepts_text_and_binary_sha256_markers() {
    let hash = "00".repeat(32);
    assert_eq!(parse_manifest(format!("{hash}  module.prop\n").as_bytes()).unwrap().len(), 1);
    assert_eq!(parse_manifest(format!("{hash} *module.prop\n").as_bytes()).unwrap().len(), 1);
}

#[test]
fn sha256_decoder_is_strict() {
    assert_eq!(decode_sha256(&"00".repeat(32)).unwrap(), [0u8; 32]);
    assert!(decode_sha256("00").is_err());
    assert!(decode_sha256(&"gg".repeat(32)).is_err());
}

use tcp_optimiser::integrity::{authenticate_manifest, verify_entry, IntegrityError, ManifestEntry};

#[test]
fn entry_verification_compares_sha256_digest() {
    let digest = decode_sha256("ba7816bf8f01cfea414140de5dae2223b00361a396177a9cb410ff61f20015ad").unwrap();
    let entry = ManifestEntry { relative_path: "module.prop".to_string(), expected_hash: digest };
    assert!(verify_entry(&entry, true, b"abc").is_ok());
    assert_eq!(
        verify_entry(&entry, true, b"abd"),
        Err(IntegrityError::HashMismatch("module.prop".to_string()))
    );
    assert_eq!(
        verify_entry(&entry, false, b"abc"),
        Err(IntegrityError::NotRegularFile("module.prop".to_string()))
    );
}

#[test]
fn manifest_authentication_rejects_bad_signatures() {
    assert_eq!(authenticate_manifest(b"manifest", &[0u8; 3]), Err(IntegrityError::InvalidSignatureLength));
    assert_eq!(authenticate_manifest(b"manifest", &[0u8; 64]), Err(IntegrityError::SignatureMismatch));
}

#[test]
fn manifest_parser_reports_each_error_kind() {
    assert_eq!(parse_manifest(b"").err(), Some(IntegrityError::EmptyManifest));
    assert_eq!(parse_manifest(b"zz  module.prop\n").err(), Some(IntegrityError::MalformedEntry));
    let hash = "00".repeat(32);
    assert_eq!(parse_manifest(format!("{hash}  ../x\n").as_bytes()).err(), Some(IntegrityError::UnsafePath));
    assert_eq!(parse_manifest(format!("{hash}  a\n{hash}  a\n").as_bytes()).err(), Some(IntegrityError::DuplicatePath));
    assert_eq!(decode_sha256("00"), Err(IntegrityError::InvalidDigestLength));
    assert_eq!(parse_manifest(b"\xff\n").err(), Some(IntegrityError::NotUtf8));
}

#[test]
fn integrity_errors_read_as_their_messages() {
    assert_eq!(IntegrityError::HashMismatch("bin/tcp".to_string()).message(), "module hash mismatch: bin/tcp");
    assert_eq!(IntegrityError::SignatureMismatch.message(), "module signature verification failed");
    assert_eq!(
        IntegrityError::MissingRequiredFile("module.prop".to_string()).message(),
        "checksum manifest is missing required file module.prop"
    );
}
