//! The signed checksum manifest of the module: its signature, its parser,
//! the paths it may name, and the check of each protected file.
use vstd::prelude::*;

use ed25519_dalek::Verifier;
use vstd::utf8::{decode_utf8, encode_utf8, valid_utf8};

use crate::digest::{sha256, sha256_digest};
use crate::kernel_module::{safe_relative_path, unsafe_path};
use crate::text::{
    byte_len, bytes_at_least, lemma_byte_len_prefix, chars_eq, chars_eq_str, chars_of, fields, lemma_take_bytes_prefix,
    lines, owned, push_str, slice_of, split_char, split_lines, string_of, take_bytes,
    truncate_bytes, views,
};

verus! {

#[verifier::external_type_specification]
#[verifier::external_body]
pub struct ExSignature(ed25519_dalek::Signature);

#[verifier::external_type_specification]
#[verifier::external_body]
pub struct ExVerifyingKey(ed25519_dalek::VerifyingKey);

/// Why a module directory does not match its signed manifest.
#[derive(Debug, Clone, PartialEq, Eq)]
pub enum IntegrityError {
    ManifestTooLarge,
    InvalidSignatureLength,
    InvalidVerificationKey,
    SignatureMismatch,
    NotUtf8,
    MalformedEntry,
    UnsafePath,
    DuplicatePath,
    InvalidDigestLength,
    InvalidDigest,
    InvalidDigestEncoding,
    EmptyManifest,
    MissingRequiredFile(String),
    NotRegularFile(String),
    HashMismatch(String),
}

/// Largest manifest that is read, in bytes.
pub const MANIFEST_LIMIT: usize = 1048576;

/// The Ed25519 key that signs release manifests.
pub const PUBLIC_KEY: [u8; 32] = [
    0xb4, 0x48, 0x44, 0x86, 0x1b, 0x8e, 0x4f, 0xb5, 0x4e, 0x44, 0x81, 0xc4, 0x20, 0x1e, 0x6d, 0x79,
    0x55, 0xbe, 0xe0, 0x0b, 0xa8, 0x24, 0x8c, 0x48, 0x37, 0xf7, 0x22, 0x06, 0x3b, 0xce, 0x29, 0xc3,
];

/// One protected file: its path as the manifest writes it, and the 32 bytes
/// of its SHA-256.
#[derive(Debug, Clone)]
pub struct ManifestEntry {
    pub relative_path: String,
    pub expected_hash: Vec<u8>,
}

pub open spec fn entry_view(e: ManifestEntry) -> (Seq<char>, Seq<u8>) {
    (e.relative_path@, e.expected_hash@)
}

pub open spec fn entries_view(v: Seq<ManifestEntry>) -> Seq<(Seq<char>, Seq<u8>)> {
    v.map_values(|e: ManifestEntry| entry_view(e))
}

impl IntegrityError {
    /// The text that reports this error.
    pub open spec fn text(self) -> Seq<char> {
        match self {
            IntegrityError::ManifestTooLarge => "checksum manifest is too large"@,
            IntegrityError::InvalidSignatureLength => "invalid module signature length"@,
            IntegrityError::InvalidVerificationKey => "invalid embedded verification key"@,
            IntegrityError::SignatureMismatch => "module signature verification failed"@,
            IntegrityError::NotUtf8 => "checksum manifest is not valid UTF-8"@,
            IntegrityError::MalformedEntry => "malformed checksum manifest entry"@,
            IntegrityError::UnsafePath => "unsafe checksum manifest path"@,
            IntegrityError::DuplicatePath => "duplicate checksum manifest path"@,
            IntegrityError::InvalidDigestLength => "invalid SHA-256 length"@,
            IntegrityError::InvalidDigest => "invalid SHA-256"@,
            IntegrityError::InvalidDigestEncoding => "invalid SHA-256 encoding"@,
            IntegrityError::EmptyManifest => "checksum manifest is empty"@,
            IntegrityError::MissingRequiredFile(p) => "checksum manifest is missing required file "@
                + p@,
            IntegrityError::NotRegularFile(p) => "protected path is not a regular file: "@ + p@,
            IntegrityError::HashMismatch(p) => "module hash mismatch: "@ + p@,
        }
    }

    /// The message that reports this error.
    pub fn message(&self) -> (r: String)
        ensures
            r@ == self.text(),
    {
        let mut s = String::new();
        match self {
            IntegrityError::ManifestTooLarge => push_str(&mut s, "checksum manifest is too large"),
            IntegrityError::InvalidSignatureLength => push_str(
                &mut s,
                "invalid module signature length",
            ),
            IntegrityError::InvalidVerificationKey => push_str(
                &mut s,
                "invalid embedded verification key",
            ),
            IntegrityError::SignatureMismatch => push_str(
                &mut s,
                "module signature verification failed",
            ),
            IntegrityError::NotUtf8 => push_str(&mut s, "checksum manifest is not valid UTF-8"),
            IntegrityError::MalformedEntry => push_str(
                &mut s,
                "malformed checksum manifest entry",
            ),
            IntegrityError::UnsafePath => push_str(&mut s, "unsafe checksum manifest path"),
            IntegrityError::DuplicatePath => push_str(&mut s, "duplicate checksum manifest path"),
            IntegrityError::InvalidDigestLength => push_str(&mut s, "invalid SHA-256 length"),
            IntegrityError::InvalidDigest => push_str(&mut s, "invalid SHA-256"),
            IntegrityError::InvalidDigestEncoding => push_str(
                &mut s,
                "invalid SHA-256 encoding",
            ),
            IntegrityError::EmptyManifest => push_str(&mut s, "checksum manifest is empty"),
            IntegrityError::MissingRequiredFile(p) => {
                push_str(&mut s, "checksum manifest is missing required file ");
                push_str(&mut s, p.as_str());
            },
            IntegrityError::NotRegularFile(p) => {
                push_str(&mut s, "protected path is not a regular file: ");
                push_str(&mut s, p.as_str());
            },
            IntegrityError::HashMismatch(p) => {
                push_str(&mut s, "module hash mismatch: ");
                push_str(&mut s, p.as_str());
            },
        }
        s
    }
}

// ---------------------------------------------------------------------------
// Outside calls
/// `std::str::from_utf8`: succeeds exactly on valid UTF-8, and the text is
/// the decoded characters.
#[verifier::external_body]
pub(crate) fn utf8_text(raw: &[u8]) -> (r: Option<String>)
    ensures
        r is Some <==> valid_utf8(raw@),
        r matches Some(s) ==> s@ == decode_utf8(raw@),
{
    match std::str::from_utf8(raw) {
        Ok(s) => Some(s.to_string()),
        Err(_) => None,
    }
}

/// An Ed25519 signature with the 64 bytes it was parsed from. Only
/// `signature_from_slice` builds one.
struct ParsedSignature {
    bytes: Vec<u8>,
    value: ed25519_dalek::Signature,
}

/// An Ed25519 verifying key with the 32 bytes it was decompressed from. Only
/// `verifying_key_from_bytes` builds one.
struct ParsedKey {
    bytes: [u8; 32],
    value: ed25519_dalek::VerifyingKey,
}

/// `ed25519_dalek::Signature::from_slice`: accepts exactly 64 bytes, and the
/// signature keeps them.
#[verifier::external_body]
fn signature_from_slice(bytes: &[u8]) -> (r: Option<ParsedSignature>)
    ensures
        r is Some <==> bytes@.len() == 64,
        r matches Some(s) ==> s.bytes@ == bytes@,
{
    match ed25519_dalek::Signature::from_slice(bytes) {
        Ok(value) => Some(ParsedSignature { bytes: bytes.to_vec(), value }),
        Err(_) => None,
    }
}

/// The 32 bytes decompress to a point of the curve, so that they form an
/// Ed25519 verifying key.
pub uninterp spec fn ed25519_key_valid(bytes: Seq<u8>) -> bool;

/// `ed25519_dalek::VerifyingKey::from_bytes`: succeeds when the compressed
/// point decompresses; which byte strings do is named, not stated.
#[verifier::external_body]
fn verifying_key_from_bytes(bytes: &[u8; 32]) -> (r: Option<ParsedKey>)
    ensures
        r is Some <==> ed25519_key_valid(bytes@),
        r matches Some(k) ==> k.bytes@ == bytes@,
{
    match ed25519_dalek::VerifyingKey::from_bytes(bytes) {
        Ok(value) => Some(ParsedKey { bytes: *bytes, value }),
        Err(_) => None,
    }
}

/// Whether an Ed25519 signature (its 64 bytes) over a message checks out
/// under a verifying key (its 32 bytes).
pub uninterp spec fn ed25519_signature_valid(key: Seq<u8>, message: Seq<u8>, signature: Seq<u8>) -> bool;

/// `Verifier::verify` of `ed25519_dalek::VerifyingKey`: the answer is named
/// over the bytes that the key and the signature were parsed from.
#[verifier::external_body]
fn signature_verifies(key: &ParsedKey, message: &[u8], signature: &ParsedSignature) -> (r: bool)
    ensures
        r == ed25519_signature_valid(key.bytes@, message@, signature.bytes@),
{
    match key.value.verify(message, &signature.value) {
        Ok(()) => true,
        Err(_) => false,
    }
}

// ---------------------------------------------------------------------------
// Signature
/// Checks the manifest's size and its detached signature against the
/// embedded key.
pub fn authenticate_manifest(manifest: &[u8], signature: &[u8]) -> (r: Result<(), IntegrityError>)
    ensures
        manifest@.len() > MANIFEST_LIMIT <==> r == Err::<(), IntegrityError>(
            IntegrityError::ManifestTooLarge,
        ),
        manifest@.len() <= MANIFEST_LIMIT && signature@.len() != 64 <==> r == Err::<
            (),
            IntegrityError,
        >(IntegrityError::InvalidSignatureLength),
        manifest@.len() <= MANIFEST_LIMIT && signature@.len() == 64 && !ed25519_key_valid(
            PUBLIC_KEY@,
        ) <==> r == Err::<(), IntegrityError>(IntegrityError::InvalidVerificationKey),
        manifest@.len() <= MANIFEST_LIMIT && signature@.len() == 64 && ed25519_key_valid(PUBLIC_KEY@)
            ==> (r is Ok <==> ed25519_signature_valid(PUBLIC_KEY@, manifest@, signature@)),
        r is Ok || r == Err::<(), IntegrityError>(IntegrityError::ManifestTooLarge) || r == Err::<
            (),
            IntegrityError,
        >(IntegrityError::InvalidSignatureLength) || r == Err::<(), IntegrityError>(
            IntegrityError::InvalidVerificationKey,
        ) || r == Err::<(), IntegrityError>(IntegrityError::SignatureMismatch),
{
    if manifest.len() > MANIFEST_LIMIT {
        return Err(IntegrityError::ManifestTooLarge);
    }
    let sig = match signature_from_slice(signature) {
        Some(s) => s,
        None => return Err(IntegrityError::InvalidSignatureLength),
    };
    let key = match verifying_key_from_bytes(&PUBLIC_KEY) {
        Some(k) => k,
        None => return Err(IntegrityError::InvalidVerificationKey),
    };
    if signature_verifies(&key, manifest, &sig) {
        Ok(())
    } else {
        Err(IntegrityError::SignatureMismatch)
    }
}

// ---------------------------------------------------------------------------
// SHA-256 text
/// Two bytes that `std::str::from_utf8` accepts: two ASCII bytes, or one
/// two-byte character.
pub open spec fn utf8_pair(b0: u8, b1: u8) -> bool {
    (b0 < 0x80 && b1 < 0x80) || (0xc2 <= b0 <= 0xdf && 0x80 <= b1 <= 0xbf)
}

/// Value of an ASCII hex digit, either case.
pub open spec fn hex_nibble(b: u8) -> Option<u8> {
    if 0x30 <= b <= 0x39 {
        Some((b - 0x30) as u8)
    } else if 0x61 <= b <= 0x66 {
        Some((b - 0x61 + 10) as u8)
    } else if 0x41 <= b <= 0x46 {
        Some((b - 0x41 + 10) as u8)
    } else {
        None
    }
}

/// `u8::from_str_radix(_, 16)` on a two-byte text: an optional `+` and one
/// digit, or two digits.
pub open spec fn radix16_pair(b0: u8, b1: u8) -> Option<u8> {
    if b0 == 0x2b {
        hex_nibble(b1)
    } else {
        match (hex_nibble(b0), hex_nibble(b1)) {
            (Some(h), Some(l)) => Some((h * 16 + l) as u8),
            _ => None,
        }
    }
}

/// One byte of the digest from two bytes of its text.
pub open spec fn digest_chunk(b0: u8, b1: u8) -> Result<u8, IntegrityError> {
    if !utf8_pair(b0, b1) {
        Err(IntegrityError::InvalidDigest)
    } else {
        match radix16_pair(b0, b1) {
            Some(v) => Ok(v),
            None => Err(IntegrityError::InvalidDigestEncoding),
        }
    }
}

/// The text decoded pair by pair; the first pair that fails decides.
pub open spec fn digest_bytes(b: Seq<u8>) -> Result<Seq<u8>, IntegrityError>
    decreases b.len(),
{
    if b.len() < 2 {
        Ok(seq![])
    } else {
        match digest_chunk(b[0], b[1]) {
            Err(e) => Err(e),
            Ok(v) => match digest_bytes(b.subrange(2, b.len() as int)) {
                Ok(rest) => Ok(seq![v] + rest),
                Err(e) => Err(e),
            },
        }
    }
}

/// A SHA-256 as 64 bytes of text.
pub open spec fn decoded_sha256(text: Seq<u8>) -> Result<Seq<u8>, IntegrityError> {
    if text.len() != 64 {
        Err(IntegrityError::InvalidDigestLength)
    } else {
        digest_bytes(text)
    }
}

pub open spec fn prefixed(p: Seq<u8>, r: Result<Seq<u8>, IntegrityError>) -> Result<
    Seq<u8>,
    IntegrityError,
> {
    match r {
        Ok(x) => Ok(p + x),
        Err(e) => Err(e),
    }
}

/// `r` is the vector form of the outcome `s`.
pub open spec fn bytes_outcome(r: Result<Vec<u8>, IntegrityError>, s: Result<Seq<u8>, IntegrityError>) -> bool {
    match r {
        Ok(v) => s == Ok::<Seq<u8>, IntegrityError>(v@),
        Err(e) => s == Err::<Seq<u8>, IntegrityError>(e),
    }
}

fn hex_nibble_exec(b: u8) -> (r: Option<u8>)
    ensures
        r == hex_nibble(b),
{
    if 0x30 <= b && b <= 0x39 {
        Some(b - 0x30)
    } else if 0x61 <= b && b <= 0x66 {
        Some(b - 0x61 + 10)
    } else if 0x41 <= b && b <= 0x46 {
        Some(b - 0x41 + 10)
    } else {
        None
    }
}

fn digest_chunk_exec(b0: u8, b1: u8) -> (r: Result<u8, IntegrityError>)
    ensures
        r == digest_chunk(b0, b1),
{
    let pair_ok = (b0 < 0x80 && b1 < 0x80) || (0xc2 <= b0 && b0 <= 0xdf && 0x80 <= b1 && b1
        <= 0xbf);
    if !pair_ok {
        return Err(IntegrityError::InvalidDigest);
    }
    if b0 == 0x2b {
        return match hex_nibble_exec(b1) {
            Some(v) => Ok(v),
            None => Err(IntegrityError::InvalidDigestEncoding),
        };
    }
    match (hex_nibble_exec(b0), hex_nibble_exec(b1)) {
        (Some(h), Some(l)) => Ok(h * 16 + l),
        _ => Err(IntegrityError::InvalidDigestEncoding),
    }
}

/// Decodes the 64-character text of a SHA-256 into its 32 bytes.
pub fn decode_sha256(value: &str) -> (r: Result<Vec<u8>, IntegrityError>)
    ensures
        bytes_outcome(r, decoded_sha256(encode_utf8(value@))),
{
    let b = value.as_bytes();
    let n = b.len();
    if n != 64 {
        return Err(IntegrityError::InvalidDigestLength);
    }
    let mut out: Vec<u8> = Vec::new();
    let mut i: usize = 0;
    assert(b@.subrange(0, 64) =~= b@);
    assert(out@ + seq![] =~= out@);
    while i < n
        invariant
            n == 64,
            b@.len() == n,
            b@ == encode_utf8(value@),
            i <= n,
            i % 2 == 0,
            digest_bytes(b@) == prefixed(out@, digest_bytes(b@.subrange(i as int, n as int))),
        decreases n - i,
    {
        let ghost rest = b@.subrange(i as int, n as int);
        assert(rest.subrange(2, rest.len() as int) =~= b@.subrange(i + 2, n as int));
        assert(rest[0] == b@[i as int] && rest[1] == b@[i + 1]);
        match digest_chunk_exec(b[i], b[i + 1]) {
            Err(e) => {
                return Err(e);
            },
            Ok(v) => {
                let ghost old_out = out@;
                out.push(v);
                proof {
                    match digest_bytes(b@.subrange(i + 2, n as int)) {
                        Ok(x) => {
                            assert(old_out + (seq![v] + x) =~= out@ + x);
                        },
                        Err(e) => {},
                    }
                }
            },
        }
        i += 2;
    }
    assert(b@.subrange(n as int, n as int) =~= seq![]);
    assert(out@ + seq![] =~= out@);
    Ok(out)
}

// ---------------------------------------------------------------------------
// Manifest lines
/// A manifest path must not leave the module directory nor name the
/// manifest or its signature.
pub open spec fn unsafe_manifest_path(p: Seq<char>) -> bool {
    unsafe_path(p) || p == "checksums.sha256"@ || p == "checksums.sig"@
}

/// A path component that `Path::components` keeps as a name.
pub open spec fn is_component(c: Seq<char>) -> bool {
    c.len() > 0 && c != "."@
}

pub open spec fn keep_components(parts: Seq<Seq<char>>) -> Seq<Seq<char>>
    decreases parts.len(),
{
    if parts.len() == 0 {
        seq![]
    } else if is_component(parts.last()) {
        keep_components(parts.drop_last()).push(parts.last())
    } else {
        keep_components(parts.drop_last())
    }
}

/// The components by which two manifest paths are the same path: the
/// pieces between slashes, without empty pieces and `.`.
pub open spec fn path_components(p: Seq<char>) -> Seq<Seq<char>> {
    keep_components(fields(p, '/'))
}

/// Slicing a line at bytes 64 and 66 does not split a character (only
/// asked of lines that are long enough to be sliced).
pub open spec fn cut_ok(line: Seq<char>) -> bool {
    byte_len(line) >= 67 ==> byte_len(take_bytes(line, 64)) == 64 && byte_len(
        take_bytes(line, 66),
    ) == 66
}

/// The digest text and the path of a line: 64 bytes, then `"  "` or
/// `" *"`, then at least one byte of path.
pub open spec fn entry_fields(line: Seq<char>) -> Option<(Seq<char>, Seq<char>)> {
    if byte_len(line) < 67 {
        None
    } else {
        let h = take_bytes(line, 64);
        let k = take_bytes(line, 66).len();
        let sep = line.subrange(h.len() as int, k as int);
        if sep == seq![' ', ' '] || sep == seq![' ', '*'] {
            Some((h, line.subrange(k as int, line.len() as int)))
        } else {
            None
        }
    }
}

/// The components of the paths accepted so far.
pub open spec fn seen_components(acc: Seq<(Seq<char>, Seq<u8>)>) -> Seq<Seq<Seq<char>>> {
    acc.map_values(|e: (Seq<char>, Seq<u8>)| path_components(e.0))
}

/// What one line gives, after the entries `acc`.
pub open spec fn line_outcome(line: Seq<char>, acc: Seq<(Seq<char>, Seq<u8>)>) -> Result<
    (Seq<char>, Seq<u8>),
    IntegrityError,
> {
    match entry_fields(line) {
        None => Err(IntegrityError::MalformedEntry),
        Some((hash, path)) => if unsafe_manifest_path(path) {
            Err(IntegrityError::UnsafePath)
        } else if seen_components(acc).contains(path_components(path)) {
            Err(IntegrityError::DuplicatePath)
        } else {
            match decoded_sha256(encode_utf8(hash)) {
                Ok(d) => Ok((path, d)),
                Err(e) => Err(e),
            }
        },
    }
}

/// The entries of lines `i..` after the entries `acc`; the first line that
/// fails decides, and a manifest without entries is refused.
pub open spec fn scan_lines(ls: Seq<Seq<char>>, i: int, acc: Seq<(Seq<char>, Seq<u8>)>) -> Result<
    Seq<(Seq<char>, Seq<u8>)>,
    IntegrityError,
>
    decreases ls.len() - i,
{
    if i >= ls.len() {
        if acc.len() == 0 {
            Err(IntegrityError::EmptyManifest)
        } else {
            Ok(acc)
        }
    } else {
        match line_outcome(ls[i], acc) {
            Err(e) => Err(e),
            Ok(entry) => scan_lines(ls, i + 1, acc.push(entry)),
        }
    }
}

/// Every line that the parser reaches can be sliced.
pub open spec fn scan_cuttable(ls: Seq<Seq<char>>, i: int, acc: Seq<(Seq<char>, Seq<u8>)>) -> bool
    decreases ls.len() - i,
{
    if i >= ls.len() {
        true
    } else {
        cut_ok(ls[i]) && match line_outcome(ls[i], acc) {
            Err(_) => true,
            Ok(entry) => scan_cuttable(ls, i + 1, acc.push(entry)),
        }
    }
}

/// The lines of the manifest text.
pub open spec fn manifest_lines(raw: Seq<u8>) -> Seq<Seq<char>> {
    lines(decode_utf8(raw))
}

/// The entries of a manifest, or why it is refused.
pub open spec fn parsed_manifest(raw: Seq<u8>) -> Result<Seq<(Seq<char>, Seq<u8>)>, IntegrityError> {
    if !valid_utf8(raw) {
        Err(IntegrityError::NotUtf8)
    } else {
        scan_lines(manifest_lines(raw), 0, seq![])
    }
}

/// Parsing does not reach a line that it would have to cut inside a
/// character.
pub open spec fn manifest_cuttable(raw: Seq<u8>) -> bool {
    valid_utf8(raw) ==> scan_cuttable(manifest_lines(raw), 0, seq![])
}

pub open spec fn entries_outcome(
    r: Result<Vec<ManifestEntry>, IntegrityError>,
    s: Result<Seq<(Seq<char>, Seq<u8>)>, IntegrityError>,
) -> bool {
    match r {
        Ok(v) => s == Ok::<Seq<(Seq<char>, Seq<u8>)>, IntegrityError>(entries_view(v@)),
        Err(e) => s == Err::<Seq<(Seq<char>, Seq<u8>)>, IntegrityError>(e),
    }
}

proof fn lemma_seen_push(acc: Seq<(Seq<char>, Seq<u8>)>, e: (Seq<char>, Seq<u8>))
    ensures
        seen_components(acc.push(e)) == seen_components(acc).push(path_components(e.0)),
{
    assert(seen_components(acc.push(e)) =~= seen_components(acc).push(path_components(e.0)));
}

proof fn lemma_entries_push(v: Seq<ManifestEntry>, e: ManifestEntry)
    ensures
        entries_view(v.push(e)) == entries_view(v).push(entry_view(e)),
{
    assert(entries_view(v.push(e)) =~= entries_view(v).push(entry_view(e)));
}

/// The digest text and path of a line, cut as the parser cuts it.
fn split_entry_line(line: &[char]) -> (r: Option<(Vec<char>, Vec<char>)>)
    requires
        cut_ok(line@),
    ensures
        r matches Some((h, p)) ==> entry_fields(line@) == Some((h@, p@)),
        r is None ==> entry_fields(line@) is None,
{
    if !bytes_at_least(line, 67) {
        return None;
    }
    let h = truncate_bytes(line, 64);
    let h66 = truncate_bytes(line, 66);
    proof {
        lemma_take_bytes_prefix(line@, 64);
        lemma_take_bytes_prefix(line@, 66);
    }
    let k = h.len();
    let k2 = h66.len();
    if k2 < k {
        proof {
            assert(h66@ =~= h@.subrange(0, k2 as int));
            lemma_byte_len_prefix(h@, k2 as int);
        }
    }
    if k2 < k || k2 - k != 2 {
        proof {
            let sep = line@.subrange(k as int, k2 as int);
            assert(sep.len() != 2);
        }
        return None;
    }
    let ghost sep = line@.subrange(k as int, k2 as int);
    if line[k] != ' ' || (line[k + 1] != ' ' && line[k + 1] != '*') {
        proof {
            assert(sep[0] == line@[k as int] && sep[1] == line@[k + 1]);
            if sep == seq![' ', ' '] {
                assert(seq![' ', ' '][0] == ' ' && seq![' ', ' '][1] == ' ');
            }
            if sep == seq![' ', '*'] {
                assert(seq![' ', '*'][0] == ' ' && seq![' ', '*'][1] == '*');
            }
        }
        return None;
    }
    proof {
        if line@[k + 1] == ' ' {
            assert(sep =~= seq![' ', ' ']);
        } else {
            assert(sep =~= seq![' ', '*']);
        }
    }
    let p = slice_of(line, k2, line.len());
    Some((h, p))
}

/// The components of a path, as `Path::components` yields the names.
fn path_components_exec(p: &[char]) -> (r: Vec<Vec<char>>)
    ensures
        views(r@) == path_components(p@),
{
    let parts = split_char(p, '/');
    let ghost ps = views(parts@);
    let mut out: Vec<Vec<char>> = Vec::new();
    let mut i: usize = 0;
    assert(ps.subrange(0, 0) =~= seq![]);
    assert(views(out@) =~= seq![]);
    while i < parts.len()
        invariant
            ps == views(parts@),
            ps == fields(p@, '/'),
            i <= parts@.len(),
            views(out@) == keep_components(ps.subrange(0, i as int)),
        decreases parts@.len() - i,
    {
        let ghost pre = ps.subrange(0, i + 1);
        assert(pre.drop_last() =~= ps.subrange(0, i as int));
        assert(pre.last() == parts@[i as int]@);
        if parts[i].len() > 0 && !chars_eq_str(parts[i].as_slice(), ".") {
            let ghost old_out = views(out@);
            out.push(slice_of(parts[i].as_slice(), 0, parts[i].len()));
            assert(parts@[i as int]@.subrange(0, parts@[i as int]@.len() as int) =~= parts@[i as int]@);
            assert(views(out@) =~= old_out.push(pre.last()));
        }
        i += 1;
    }
    assert(ps.subrange(0, ps.len() as int) =~= ps);
    out
}

pub open spec fn comps_views(s: Seq<Vec<Vec<char>>>) -> Seq<Seq<Seq<char>>> {
    s.map_values(|x: Vec<Vec<char>>| views(x@))
}

fn comps_eq(a: &Vec<Vec<char>>, b: &Vec<Vec<char>>) -> (r: bool)
    ensures
        r == (views(a@) == views(b@)),
{
    if a.len() != b.len() {
        assert(views(a@).len() != views(b@).len());
        return false;
    }
    let mut i: usize = 0;
    while i < a.len()
        invariant
            a@.len() == b@.len(),
            i <= a@.len(),
            forall|j: int| 0 <= j < i ==> views(a@)[j] == views(b@)[j],
        decreases a@.len() - i,
    {
        if !chars_eq(a[i].as_slice(), b[i].as_slice()) {
            assert(views(a@)[i as int] != views(b@)[i as int]);
            return false;
        }
        i += 1;
    }
    assert(views(a@) =~= views(b@));
    true
}

fn seen_has(seen: &Vec<Vec<Vec<char>>>, c: &Vec<Vec<char>>) -> (r: bool)
    ensures
        r == comps_views(seen@).contains(views(c@)),
{
    let mut j: usize = 0;
    while j < seen.len()
        invariant
            j <= seen@.len(),
            forall|k: int| 0 <= k < j ==> comps_views(seen@)[k] != views(c@),
        decreases seen@.len() - j,
    {
        if comps_eq(&seen[j], c) {
            assert(comps_views(seen@)[j as int] == views(c@));
            return true;
        }
        j += 1;
    }
    false
}

/// The entry of one line, after the entries whose components are `seen`.
fn manifest_line(line: &[char], seen: &Vec<Vec<Vec<char>>>, acc: Ghost<Seq<(Seq<char>, Seq<u8>)>>) -> (r: Result<(ManifestEntry, Vec<Vec<char>>), IntegrityError>)
    requires
        cut_ok(line@),
        comps_views(seen@) == seen_components(acc@),
    ensures
        r matches Ok((e, c)) ==> line_outcome(line@, acc@) == Ok::<
            (Seq<char>, Seq<u8>),
            IntegrityError,
        >(entry_view(e)) && views(c@) == path_components(e.relative_path@),
        r matches Err(err) ==> line_outcome(line@, acc@) == Err::<
            (Seq<char>, Seq<u8>),
            IntegrityError,
        >(err),
{
    let (h, p) = match split_entry_line(line) {
        Some(parts) => parts,
        None => return Err(IntegrityError::MalformedEntry),
    };
    let path = string_of(p.as_slice());
    let is_name = crate::text::str_eq(path.as_str(), "checksums.sha256") || crate::text::str_eq(
        path.as_str(),
        "checksums.sig",
    );
    match safe_relative_path(path.as_str()) {
        Err(_) => return Err(IntegrityError::UnsafePath),
        Ok(_) => {},
    }
    if is_name {
        return Err(IntegrityError::UnsafePath);
    }
    let comps = path_components_exec(p.as_slice());
    if seen_has(seen, &comps) {
        return Err(IntegrityError::DuplicatePath);
    }
    let hash_text = string_of(h.as_slice());
    match decode_sha256(hash_text.as_str()) {
        Err(e) => Err(e),
        Ok(d) => Ok((ManifestEntry { relative_path: path, expected_hash: d }, comps)),
    }
}

/// Parses the manifest, or says that parsing would have to cut a line
/// inside a character (`None`).
pub fn scan_manifest(raw: &[u8]) -> (r: Option<Result<Vec<ManifestEntry>, IntegrityError>>)
    ensures
        r is None <==> !manifest_cuttable(raw@),
        r matches Some(res) ==> entries_outcome(res, parsed_manifest(raw@)),
{
    let text = match utf8_text(raw) {
        Some(t) => t,
        None => return Some(Err(IntegrityError::NotUtf8)),
    };
    let cs = chars_of(text.as_str());
    let ls = split_lines(cs.as_slice());
    let ghost lsv = views(ls@);
    let mut out: Vec<ManifestEntry> = Vec::new();
    let mut seen: Vec<Vec<Vec<char>>> = Vec::new();
    let mut i: usize = 0;
    assert(entries_view(out@) =~= seq![]);
    assert(comps_views(seen@) =~= seen_components(entries_view(out@)));
    while i < ls.len()
        invariant
            valid_utf8(raw@),
            lsv == views(ls@),
            lsv == manifest_lines(raw@),
            i <= ls@.len(),
            scan_lines(lsv, 0, seq![]) == scan_lines(lsv, i as int, entries_view(out@)),
            scan_cuttable(lsv, 0, seq![]) == scan_cuttable(lsv, i as int, entries_view(out@)),
            comps_views(seen@) == seen_components(entries_view(out@)),
        decreases ls@.len() - i,
    {
        assert(lsv[i as int] == ls@[i as int]@);
        let ghost acc = entries_view(out@);
        if !line_cuttable(ls[i].as_slice()) {
            return None;
        }
        match manifest_line(ls[i].as_slice(), &seen, Ghost(acc)) {
            Err(e) => {
                return Some(Err(e));
            },
            Ok((entry, comps)) => {
                proof {
                    lemma_entries_push(out@, entry);
                    lemma_seen_push(acc, entry_view(entry));
                }
                let ghost old_seen = seen@;
                out.push(entry);
                seen.push(comps);
                assert(comps_views(seen@) =~= comps_views(old_seen).push(views(comps@)));
            },
        }
        i += 1;
    }
    if out.len() == 0 {
        return Some(Err(IntegrityError::EmptyManifest));
    }
    Some(Ok(out))
}

/// A line can be sliced at bytes 64 and 66 if it is long enough to be.
fn line_cuttable(line: &[char]) -> (r: bool)
    ensures
        r == cut_ok(line@),
{
    if !bytes_at_least(line, 67) {
        return true;
    }
    let h = truncate_bytes(line, 64);
    let h66 = truncate_bytes(line, 66);
    bytes_at_least(h.as_slice(), 64) && !bytes_at_least(h.as_slice(), 65) && bytes_at_least(
        h66.as_slice(),
        66,
    ) && !bytes_at_least(h66.as_slice(), 67)
}

/// Parses a checksum manifest in `sha256sum` format, text or binary
/// marker, into its entries.
pub fn parse_manifest(raw: &[u8]) -> (r: Result<Vec<ManifestEntry>, IntegrityError>)
    requires
        manifest_cuttable(raw@),
    ensures
        entries_outcome(r, parsed_manifest(raw@)),
{
    match scan_manifest(raw) {
        Some(res) => res,
        None => Err(IntegrityError::MalformedEntry),
    }
}

// ---------------------------------------------------------------------------
// Required files and file checks
/// Files that every release manifest must protect.
pub open spec fn required_files() -> Seq<Seq<char>> {
    seq![
        "module.prop"@,
        "customize.sh"@,
        "service.sh"@,
        "post-fs-data.sh"@,
        "uninstall.sh"@,
        "webroot/index.html"@,
        "bin/arm64-v8a/tcp_optimiser"@,
        "bin/armeabi-v7a/tcp_optimiser"@,
        "bin/x86_64/tcp_optimiser"@,
    ]
}

fn required_file(i: usize) -> (r: &'static str)
    requires
        i < 9,
    ensures
        r@ == required_files()[i as int],
{
    match i {
        0 => "module.prop",
        1 => "customize.sh",
        2 => "service.sh",
        3 => "post-fs-data.sh",
        4 => "uninstall.sh",
        5 => "webroot/index.html",
        6 => "bin/arm64-v8a/tcp_optimiser",
        7 => "bin/armeabi-v7a/tcp_optimiser",
        _ => "bin/x86_64/tcp_optimiser",
    }
}

/// Some entry names exactly the path `p`.
pub open spec fn protects(entries: Seq<(Seq<char>, Seq<u8>)>, p: Seq<char>) -> bool {
    exists|j: int| 0 <= j < entries.len() && entries[j].0 == p
}

/// The first required file, from the `i`-th on, that no entry names.
pub open spec fn missing_from(entries: Seq<(Seq<char>, Seq<u8>)>, i: int) -> Option<Seq<char>>
    decreases 9 - i,
{
    if i >= 9 || i < 0 {
        None
    } else if !protects(entries, required_files()[i]) {
        Some(required_files()[i])
    } else {
        missing_from(entries, i + 1)
    }
}

fn protects_exec(entries: &Vec<ManifestEntry>, p: &str) -> (r: bool)
    ensures
        r == protects(entries_view(entries@), p@),
{
    let mut j: usize = 0;
    while j < entries.len()
        invariant
            j <= entries@.len(),
            forall|k: int| 0 <= k < j ==> entries_view(entries@)[k].0 != p@,
        decreases entries@.len() - j,
    {
        if crate::text::str_eq(entries[j].relative_path.as_str(), p) {
            assert(entries_view(entries@)[j as int].0 == p@);
            return true;
        }
        j += 1;
    }
    false
}

/// Every required file is named by an entry; otherwise the first one that
/// is not.
pub fn check_required_files(entries: &Vec<ManifestEntry>) -> (r: Result<(), IntegrityError>)
    ensures
        r is Ok <==> missing_from(entries_view(entries@), 0) is None,
        r matches Err(e) ==> (e matches IntegrityError::MissingRequiredFile(q) && missing_from(
            entries_view(entries@),
            0,
        ) == Some(q@)),
{
    let ghost ev = entries_view(entries@);
    let mut i: usize = 0;
    while i < 9
        invariant
            ev == entries_view(entries@),
            i <= 9,
            missing_from(ev, 0) == missing_from(ev, i as int),
        decreases 9 - i,
    {
        let name = required_file(i);
        if !protects_exec(entries, name) {
            return Err(IntegrityError::MissingRequiredFile(owned(name)));
        }
        i += 1;
    }
    Ok(())
}

fn bytes_eq(a: &[u8], b: &[u8]) -> (r: bool)
    ensures
        r == (a@ == b@),
{
    if a.len() != b.len() {
        return false;
    }
    let mut i: usize = 0;
    while i < a.len()
        invariant
            a@.len() == b@.len(),
            i <= a@.len(),
            forall|j: int| 0 <= j < i ==> a@[j] == b@[j],
        decreases a@.len() - i,
    {
        if a[i] != b[i] {
            return false;
        }
        i += 1;
    }
    assert(a@ =~= b@);
    true
}

/// Checks one protected file: it must be a regular file (not a symlink)
/// whose content hashes to the manifest's SHA-256.
pub fn verify_entry(entry: &ManifestEntry, regular_file: bool, content: &[u8]) -> (r: Result<
    (),
    IntegrityError,
>)
    ensures
        !regular_file ==> (r matches Err(IntegrityError::NotRegularFile(p)) && p@
            == entry.relative_path@),
        regular_file && sha256_digest(content@) == entry.expected_hash@ ==> r is Ok,
        regular_file && sha256_digest(content@) != entry.expected_hash@ ==> (r matches Err(
            IntegrityError::HashMismatch(p),
        ) && p@ == entry.relative_path@),
{
    if !regular_file {
        return Err(IntegrityError::NotRegularFile(owned(entry.relative_path.as_str())));
    }
    let actual = sha256(content);
    if !bytes_eq(actual.as_slice(), entry.expected_hash.as_slice()) {
        return Err(IntegrityError::HashMismatch(owned(entry.relative_path.as_str())));
    }
    Ok(())
}

// ---------------------------------------------------------------------------
// Laws
/// Entries of which every path is safe, with the 32 bytes of a SHA-256,
/// no two naming the same path.
pub open spec fn sound_entries(es: Seq<(Seq<char>, Seq<u8>)>) -> bool {
    &&& forall|i: int| 0 <= i < es.len() ==> !unsafe_manifest_path(#[trigger] es[i].0)
    &&& forall|i: int| 0 <= i < es.len() ==> (#[trigger] es[i]).1.len() == 32
    &&& forall|i: int, j: int|
        0 <= i < j < es.len() ==> path_components(#[trigger] es[i].0) != path_components(
            #[trigger] es[j].0,
        )
}

proof fn lemma_digest_len(b: Seq<u8>)
    ensures
        digest_bytes(b) matches Ok(d) ==> d.len() == b.len() / 2,
    decreases b.len(),
{
    if b.len() >= 2 {
        lemma_digest_len(b.subrange(2, b.len() as int));
    }
}

proof fn lemma_scan_sound(ls: Seq<Seq<char>>, i: int, acc: Seq<(Seq<char>, Seq<u8>)>)
    requires
        sound_entries(acc),
    ensures
        scan_lines(ls, i, acc) matches Ok(es) ==> sound_entries(es) && es.len() > 0,
    decreases ls.len() - i,
{
    if i < ls.len() {
        match line_outcome(ls[i], acc) {
            Err(_) => {},
            Ok(entry) => {
                let next = acc.push(entry);
                match entry_fields(ls[i]) {
                    Some((hash, path)) => {
                        lemma_digest_len(encode_utf8(hash));
                        assert(entry.0 == path);
                        assert(!seen_components(acc).contains(path_components(path)));
                        assert forall|a: int, b: int|
                            0 <= a < b < next.len() implies path_components(#[trigger] next[a].0)
                            != path_components(#[trigger] next[b].0) by {
                            if b == acc.len() {
                                assert(seen_components(acc)[a] == path_components(acc[a].0));
                            }
                        }
                    },
                    None => {},
                }
                lemma_scan_sound(ls, i + 1, next);
            },
        }
    }
}

/// A manifest that parses names at least one file, every path stays inside
/// the module directory and names neither the manifest nor its signature,
/// no two entries name the same path, and every digest has 32 bytes.
pub proof fn lemma_parsed_manifest_is_sound(raw: Seq<u8>)
    ensures
        parsed_manifest(raw) matches Ok(es) ==> sound_entries(es) && es.len() > 0,
{
    if valid_utf8(raw) {
        lemma_scan_sound(manifest_lines(raw), 0, seq![]);
    }
}

} // verus!
