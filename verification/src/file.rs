//! Embedded file records and their construction.
//!
//! A [`FileInfo`] is built from a file's relative path, raw contents and
//! modification time; construction derives the content hash (hex-encoded
//! SHA-256) and the MIME type, so that two records built from identical
//! bytes always carry identical hashes. An [`EmbeddedFile`] is the served
//! form of the same data, keyed by its URL route.

use sha2::Digest;
use vstd::prelude::*;
use vstd::string::StringExecFns;

verus! {

/// The SHA-256 digest of a byte sequence. The digest function itself is
/// left abstract: it depends on its input alone, and the library never
/// states its value on given bytes.
pub uninterp spec fn sha256_of(data: Seq<u8>) -> Seq<u8>;

/// The MIME type guessed from a file path's extension, with
/// `application/octet-stream` standing in when nothing is known. The
/// lookup table is left abstract: it depends on the path alone.
pub uninterp spec fn mime_of(path: Seq<char>) -> Seq<char>;

/// The lowercase hexadecimal digit of a value below sixteen.
pub open spec fn spec_hex_digit(n: int) -> char {
    if n == 0 {
        '0'
    } else if n == 1 {
        '1'
    } else if n == 2 {
        '2'
    } else if n == 3 {
        '3'
    } else if n == 4 {
        '4'
    } else if n == 5 {
        '5'
    } else if n == 6 {
        '6'
    } else if n == 7 {
        '7'
    } else if n == 8 {
        '8'
    } else if n == 9 {
        '9'
    } else if n == 10 {
        'a'
    } else if n == 11 {
        'b'
    } else if n == 12 {
        'c'
    } else if n == 13 {
        'd'
    } else if n == 14 {
        'e'
    } else {
        'f'
    }
}

/// Lowercase hex encoding: each byte becomes its high nibble's digit
/// followed by its low nibble's digit.
pub open spec fn spec_hex_of(data: Seq<u8>) -> Seq<char> {
    Seq::new(
        2 * data.len(),
        |i: int|
            if i % 2 == 0 {
                spec_hex_digit((data[i / 2] >> 4) as int)
            } else {
                spec_hex_digit((data[i / 2] & 0x0f) as int)
            },
    )
}

/// Relies on `sha2::Sha256::digest`: the digest is a pure function of the
/// input bytes, and a SHA-256 digest is 32 bytes long.
#[verifier::external_body]
fn sha256_digest(data: &[u8]) -> (r: Vec<u8>)
    ensures
        r@ == sha256_of(data@),
        r@.len() == 32,
{
    sha2::Sha256::digest(data).to_vec()
}

/// Relies on `hex::encode`: every input byte is rendered as two lowercase
/// hexadecimal digits, high nibble first.
#[verifier::external_body]
fn hex_encode(data: &[u8]) -> (r: String)
    ensures
        r@ == spec_hex_of(data@),
{
    hex::encode(data)
}

/// Relies on `mime_guess::from_path`: the guess is a pure function of the
/// path (its extension), with `application/octet-stream` as the fallback.
#[verifier::external_body]
fn guess_mime(path: &str) -> (r: String)
    ensures
        r@ == mime_of(path@),
{
    mime_guess::from_path(path).first_or_octet_stream().to_string()
}

/// Metadata about an embedded file.
#[derive(Debug, Clone, PartialEq, Eq)]
pub struct EmbeddedFileMetadata {
    /// Hex-encoded SHA-256 hash of the file contents, used for `ETag`.
    pub content_hash: String,
    /// Unix timestamp of last modification.
    pub last_modified: u64,
    /// MIME type derived from the file extension.
    pub mime_type: String,
    /// Size of the file in bytes.
    pub size: u64,
}

/// A file embedded in the asset table.
#[derive(Debug, Clone, PartialEq, Eq)]
pub struct EmbeddedFile {
    /// Route for the file: its relative path behind a leading slash.
    pub route: String,
    /// Path relative to the embedded directory.
    pub path: String,
    /// Raw file contents.
    pub contents: Vec<u8>,
    /// File metadata.
    pub metadata: EmbeddedFileMetadata,
}

/// Information about a single file, as collected from a directory walk.
#[derive(Debug, Clone, PartialEq, Eq)]
pub struct FileInfo {
    /// Path relative to the asset directory (with forward slashes).
    pub relative_path: String,
    /// Raw file contents.
    pub contents: Vec<u8>,
    /// SHA-256 hash of the contents (hex-encoded).
    pub content_hash: String,
    /// Unix timestamp of last modification.
    pub last_modified: u64,
    /// MIME type.
    pub mime_type: String,
}

/// The record's hash is the hex-encoded SHA-256 digest of its contents.
pub open spec fn hash_matches_contents(info: FileInfo) -> bool {
    info.content_hash@ == spec_hex_of(sha256_of(info.contents@))
}

impl FileInfo {
    /// Build a record from a file's relative path, raw contents and
    /// modification time, deriving the content hash and the MIME type.
    pub fn new(relative_path: String, contents: Vec<u8>, last_modified: u64) -> (r: FileInfo)
        ensures
            r.relative_path@ == relative_path@,
            r.contents@ == contents@,
            r.last_modified == last_modified,
            hash_matches_contents(r),
            r.content_hash@.len() == 64,
            r.mime_type@ == mime_of(relative_path@),
    {
        let digest = sha256_digest(contents.as_slice());
        let content_hash = hex_encode(digest.as_slice());
        let mime_type = guess_mime(relative_path.as_str());
        FileInfo { relative_path, contents, content_hash, last_modified, mime_type }
    }

    /// The served form of this record: the same data keyed by its route,
    /// which is the relative path behind a leading slash.
    pub fn into_embedded(self) -> (r: EmbeddedFile)
        ensures
            r.route@ == "/"@ + self.relative_path@,
            r.path@ == self.relative_path@,
            r.contents@ == self.contents@,
            r.metadata.content_hash@ == self.content_hash@,
            r.metadata.last_modified == self.last_modified,
            r.metadata.mime_type@ == self.mime_type@,
            r.metadata.size == self.contents@.len(),
    {
        let mut route = String::from_str("/");
        route.append(self.relative_path.as_str());
        let size = self.contents.len() as u64;
        EmbeddedFile {
            route,
            path: self.relative_path,
            contents: self.contents,
            metadata: EmbeddedFileMetadata {
                content_hash: self.content_hash,
                last_modified: self.last_modified,
                mime_type: self.mime_type,
                size,
            },
        }
    }
}

/// Two records whose contents are byte-identical carry the same content
/// hash: the hash is a deterministic function of the contents.
pub proof fn lemma_content_hash_deterministic(a: FileInfo, b: FileInfo)
    requires
        hash_matches_contents(a),
        hash_matches_contents(b),
        a.contents@ == b.contents@,
    ensures
        a.content_hash@ == b.content_hash@,
{
}

} // verus!
