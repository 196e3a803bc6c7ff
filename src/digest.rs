use vstd::prelude::*;
use vstd::utf8::{encode_utf8, encode_utf8_decode_utf8};

use crate::crawler::FileItem;

verus! {

/// The SHA-256 digest of a byte sequence, as `sha2` computes it.
pub uninterp spec fn sha256_of(data: Seq<u8>) -> Seq<u8>;

/// The lowercase hexadecimal digit of a value below sixteen.
pub open spec fn hex_char(n: int) -> char {
    seq!['0', '1', '2', '3', '4', '5', '6', '7', '8', '9', 'a', 'b', 'c', 'd', 'e', 'f'][n]
}

/// Two lowercase hexadecimal digits for each byte, high nibble first.
pub open spec fn hex_of(bytes: Seq<u8>) -> Seq<char>
    decreases bytes.len(),
{
    if bytes.len() == 0 {
        Seq::empty()
    } else {
        let b = bytes.last();
        hex_of(bytes.drop_last()) + seq![hex_char(b as int / 16), hex_char(b as int % 16)]
    }
}

/// Relies on sha2's `Sha256` through `Digest::digest`: the digest depends on
/// the bytes alone.
#[verifier::external_body]
fn sha256(data: &[u8]) -> (r: Vec<u8>)
    ensures
        r@ == sha256_of(data@),
{
    <sha2::Sha256 as sha2::Digest>::digest(data).to_vec()
}

/// Relies on `hex::encode`: each byte becomes two lowercase hexadecimal
/// digits, high nibble first.
#[verifier::external_body]
fn to_hex(bytes: &[u8]) -> (r: String)
    ensures
        r@ == hex_of(bytes@),
{
    hex::encode(bytes)
}

/// The text that stands for a file's content: what was read, or the file's
/// own path when the content could not be read as text.
pub open spec fn content_of(path: Seq<char>, loaded: Option<String>) -> Seq<char> {
    match loaded {
        Some(text) => text@,
        None => path,
    }
}

/// The canonical string a file is hashed and embedded by.
pub open spec fn canonical_text(path: Seq<char>, content: Seq<char>) -> Seq<char> {
    path + "\n\n"@ + content
}

/// The hex digest of a canonical string.
pub open spec fn digest_hex(text: Seq<char>) -> Seq<char> {
    hex_of(sha256_of(encode_utf8(text)))
}

/// A content digest, tagged with where the hashed content came from.
#[derive(Debug, Clone)]
pub enum ContentDigest {
    /// Hash over the file's text content.
    ContentHash(String),
    /// Hash over the file's path, used when the content is not readable text.
    PathFallbackHash(String),
}

impl ContentDigest {
    /// The digest for a SHA-256 sum, tagged as taken over the path in place
    /// of the content when `path_fallback` holds.
    pub fn encode(sum: &[u8], path_fallback: bool) -> (r: ContentDigest)
        ensures
            r.hex_spec() == hex_of(sum@),
            r is PathFallbackHash <==> path_fallback,
    {
        let hex = to_hex(sum);
        if path_fallback {
            ContentDigest::PathFallbackHash(hex)
        } else {
            ContentDigest::ContentHash(hex)
        }
    }

    pub open spec fn hex_spec(&self) -> Seq<char> {
        match self {
            ContentDigest::ContentHash(h) => h@,
            ContentDigest::PathFallbackHash(h) => h@,
        }
    }

    /// The hexadecimal digest, whatever its provenance.
    pub fn into_hex(self) -> (r: String)
        ensures
            r@ == self.hex_spec(),
    {
        match self {
            ContentDigest::ContentHash(h) => h,
            ContentDigest::PathFallbackHash(h) => h,
        }
    }

    /// Whether the digest was taken over the path in place of the content.
    pub fn is_path_fallback(&self) -> (r: bool)
        ensures
            r == (self is PathFallbackHash),
    {
        match self {
            ContentDigest::ContentHash(_) => false,
            ContentDigest::PathFallbackHash(_) => true,
        }
    }
}

impl FileItem {
    /// The file's content as text, given what reading the file gave
    /// (`None` when it could not be read as text): the text itself, or else
    /// the file's path.
    pub fn read(&self, loaded: Option<String>) -> (r: String)
        ensures
            r@ == content_of(self.path@, loaded),
    {
        match loaded {
            Some(text) => text,
            None => self.path.clone(),
        }
    }

    /// The canonical string `path + "\n\n" + content` over which the file is
    /// hashed; it is also the text handed to the embedder.
    pub fn canonical(&self, loaded: Option<String>) -> (r: String)
        ensures
            r@ == canonical_text(self.path@, content_of(self.path@, loaded)),
    {
        let content = self.read(loaded);
        let mut text = self.path.clone();
        text.append("\n\n");
        text.append(content.as_str());
        text
    }

    /// The digest of the file's canonical string, tagged with its provenance.
    pub fn hash(&self, loaded: Option<String>) -> (r: ContentDigest)
        ensures
            r.hex_spec() == digest_hex(canonical_text(self.path@, content_of(self.path@, loaded))),
            r is PathFallbackHash <==> loaded is None,
    {
        let fallback = loaded.is_none();
        let text = self.canonical(loaded);
        let sum = sha256(text.as_str().as_bytes());
        ContentDigest::encode(sum.as_slice(), fallback)
    }
}

/// Hashing is deterministic: the same path with the same content always gives
/// the same digest.
pub proof fn lemma_hash_deterministic(a: FileItem, la: Option<String>, b: FileItem, lb: Option<String>)
    requires
        a.path@ == b.path@,
        content_of(a.path@, la) == content_of(b.path@, lb),
    ensures
        digest_hex(canonical_text(a.path@, content_of(a.path@, la))) == digest_hex(
            canonical_text(b.path@, content_of(b.path@, lb)),
        ),
{
}

/// Changing only the content, or only the path, changes the bytes that are
/// hashed; a different digest then follows from SHA-256's collision resistance.
pub proof fn lemma_hash_input_changes(p1: Seq<char>, c1: Seq<char>, p2: Seq<char>, c2: Seq<char>)
    requires
        (p1 == p2 && c1 != c2) || (p1 != p2 && c1 == c2),
    ensures
        encode_utf8(canonical_text(p1, c1)) != encode_utf8(canonical_text(p2, c2)),
{
    let t1 = canonical_text(p1, c1);
    let t2 = canonical_text(p2, c2);
    let sep = "\n\n"@;
    if p1 == p2 {
        if t1 == t2 {
            assert(c1 == t1.subrange((p1.len() + sep.len()) as int, t1.len() as int));
            assert(c2 == t2.subrange((p2.len() + sep.len()) as int, t2.len() as int));
        }
    } else {
        if t1 == t2 {
            assert(p1 + sep == t1.subrange(0, t1.len() - c1.len()));
            assert(p2 + sep == t2.subrange(0, t2.len() - c2.len()));
            assert(p1 == (p1 + sep).subrange(0, p1.len() as int));
            assert(p2 == (p2 + sep).subrange(0, p2.len() as int));
        }
    }
    encode_utf8_decode_utf8(t1);
    encode_utf8_decode_utf8(t2);
}

} // verus!
