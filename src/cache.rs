//! Cache locations for downloaded and built sources, keyed by content
//! hashes so that repeated runs reuse them.
use vstd::prelude::*;
use sha2::Digest;
use crate::text::{owned_text, push_char, push_text};

verus! {

/// What SHA-256 gives for the UTF-8 bytes of a text.
pub uninterp spec fn sha256_of(text: Seq<char>) -> Seq<u8>;

/// Relies on sha2::Sha256::digest: the SHA-256 digest of the text's UTF-8
/// bytes.
#[verifier::external_body]
fn sha256_text(text: &str) -> (r: Vec<u8>)
    ensures
        r@ == sha256_of(text@),
{
    sha2::Sha256::digest(text.as_bytes()).to_vec()
}

/// The lower-case hexadecimal digit of `d` (below 16).
pub open spec fn hex_digit(d: nat) -> char {
    if d < 10 {
        ((d + 48) as u8) as char
    } else {
        ((d + 87) as u8) as char
    }
}

/// Two lower-case hexadecimal digits per byte, in order.
pub open spec fn hex_of(bytes: Seq<u8>) -> Seq<char>
    decreases bytes.len(),
{
    if bytes.len() == 0 {
        Seq::empty()
    } else {
        hex_of(bytes.drop_last()) + seq![
            hex_digit((bytes.last() / 16) as nat),
            hex_digit((bytes.last() % 16) as nat),
        ]
    }
}

fn push_hex_digit(out: &mut String, d: u8)
    requires
        d < 16,
    ensures
        final(out)@ == old(out)@.push(hex_digit(d as nat)),
{
    if d < 10 {
        push_char(out, (d + 48) as char);
    } else {
        push_char(out, (d + 87) as char);
    }
}

/// Writes bytes as lower-case hexadecimal, two digits per byte.
pub fn bytes_to_hex(bytes: &[u8]) -> (r: String)
    ensures
        r@ == hex_of(bytes@),
{
    let mut out = String::new();
    let n = bytes.len();
    let mut i: usize = 0;
    while i < n
        invariant
            n == bytes@.len(),
            i <= n,
            out@ == hex_of(bytes@.take(i as int)),
        decreases n - i,
    {
        let b = bytes[i];
        push_hex_digit(&mut out, b / 16);
        push_hex_digit(&mut out, b % 16);
        assert(bytes@.take(i + 1).drop_last() =~= bytes@.take(i as int));
        i += 1;
        assert(out@ =~= hex_of(bytes@.take(i as int)));
    }
    assert(bytes@.take(n as int) =~= bytes@);
    out
}

/// The cache key of a text: its SHA-256 digest in hexadecimal.
pub open spec fn hash_of(text: Seq<char>) -> Seq<char> {
    hex_of(sha256_of(text))
}

/// The cache key of a text.
pub fn hash_string(value: &str) -> (r: String)
    ensures
        r@ == hash_of(value@),
{
    let digest = sha256_text(value);
    bytes_to_hex(digest.as_slice())
}

/// `name` under directory `dir`.
pub open spec fn join_path(dir: Seq<char>, name: Seq<char>) -> Seq<char> {
    if dir.len() > 0 && dir.last() == '/' {
        dir + name
    } else {
        dir + seq!['/'] + name
    }
}

/// The path of `name` under directory `dir`.
pub fn path_join(dir: &str, name: &str) -> (r: String)
    ensures
        r@ == join_path(dir@, name@),
{
    let mut out = owned_text(dir);
    let n = dir.unicode_len();
    if n == 0 || dir.get_char(n - 1) != '/' {
        push_char(&mut out, '/');
    }
    push_text(&mut out, name);
    out
}

/// The cache directories of one plan.
#[derive(Debug, Clone)]
pub struct CacheContext {
    /// The cache key of the plan's text.
    pub config_hash: String,
    /// The root of the cache.
    pub base_dir: String,
    /// Sources resolved for plans, and their builds.
    pub source_dir: String,
    /// Downloaded sources, by address.
    pub url_dir: String,
}

/// The file name of a cached source with extension `ext`.
pub open spec fn source_file_name(ext: Seq<char>) -> Seq<char> {
    "source."@ + ext
}

fn source_file(extension: &str) -> (r: String)
    ensures
        r@ == source_file_name(extension@),
{
    let mut name = owned_text("source.");
    push_text(&mut name, extension);
    name
}

impl CacheContext {
    /// Where the download of `url` is kept.
    pub fn url_source_path(&self, url: &str, extension: &str) -> (r: String)
        ensures
            r@ == join_path(join_path(self.url_dir@, hash_of(url@)), source_file_name(extension@)),
    {
        let dir = path_join(self.url_dir.as_str(), hash_string(url).as_str());
        path_join(dir.as_str(), source_file(extension).as_str())
    }

    /// Where the copy of the download of `url` that a plan runs is kept.
    pub fn config_source_path(&self, url: &str, extension: &str) -> (r: String)
        ensures
            r@ == join_path(
                join_path(self.source_dir@, hash_of(url@)),
                source_file_name(extension@),
            ),
    {
        let dir = path_join(self.source_dir.as_str(), hash_string(url).as_str());
        path_join(dir.as_str(), source_file(extension).as_str())
    }

    /// Where the build of the source at `source_path` is kept.
    pub fn build_path_for_source(&self, source_path: &str) -> (r: String)
        ensures
            r@ == join_path(join_path(self.source_dir@, hash_of(source_path@)), "build"@),
    {
        let dir = path_join(self.source_dir.as_str(), hash_string(source_path).as_str());
        path_join(dir.as_str(), "build")
    }
}

/// The cache directories for a plan with text `config_content`, under the
/// directory `root` (the working directory of the run).
pub fn cache_context(config_content: &str, root: &str) -> (r: CacheContext)
    ensures
        r.config_hash@ == hash_of(config_content@),
        r.base_dir@ == join_path(root@, "tmp_workspace"@),
        r.source_dir@ == join_path(r.base_dir@, "source"@),
        r.url_dir@ == join_path(r.base_dir@, "url"@),
{
    let config_hash = hash_string(config_content);
    let base_dir = path_join(root, "tmp_workspace");
    let source_dir = path_join(base_dir.as_str(), "source");
    let url_dir = path_join(base_dir.as_str(), "url");
    CacheContext { config_hash, base_dir, source_dir, url_dir }
}

} // verus!
