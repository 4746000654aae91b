//! The cache store: one JSON file per language code, freshness judged at
//! read time from the file's last-modification timestamp.
//!
//! The store itself never touches the filesystem. A caller probes the disk,
//! hands what it saw to [`get_from_cache`] as a [`CacheFile`], and persists
//! what [`write_to_cache`] returns by replacing the file's content whole
//! (an atomic rename-over, so that a concurrent reader never sees a torn
//! write). Every decision — miss, expiry, parse, error — is made here.

use vstd::prelude::*;
use vstd::string::StringExecFns;
use crate::errors::Error;
use crate::json::{doc_of, text_of, from_json_text, to_json_text};

verus! {

/// What the filesystem shows for one cache key: no file at the resolved
/// path, or a file with its last-modification time (seconds since the
/// epoch) and its full text.
pub enum CacheFile {
    Absent,
    Present { modified_secs: u64, text: String },
}

impl CacheFile {
    /// The file's state as plain data: the modification time and the text.
    pub open spec fn entry(self) -> Option<(u64, Seq<char>)> {
        match self {
            CacheFile::Absent => None,
            CacheFile::Present { modified_secs, text } => Some((modified_secs, text@)),
        }
    }
}

/// Whether an entry written at `modified` is still fresh at `now` under
/// `ttl`: its age is at most `ttl` seconds, the boundary inclusive. A
/// modification time in the future is a filesystem fault, not a freshness
/// judgment.
pub open spec fn fresh_spec(now_secs: u64, modified_secs: u64, ttl_secs: u64) -> Result<bool, Error> {
    if modified_secs > now_secs {
        Err(Error::Io)
    } else {
        Ok(now_secs - modified_secs <= ttl_secs)
    }
}

/// What a cache read returns, as a function of the file's state and the
/// clock: a clean miss (`Ok(None)`) when the file is absent or expired, the
/// parsed document when it is fresh and valid JSON, `CacheCorrupt` when it
/// is fresh and not JSON, and `Io` when its timestamp lies in the future.
pub open spec fn read_spec(
    entry: Option<(u64, Seq<char>)>,
    now_secs: u64,
    ttl_secs: u64,
) -> Result<Option<serde_json::Value>, Error> {
    match entry {
        None => Ok(None),
        Some((modified, text)) => {
            if modified > now_secs {
                Err(Error::Io)
            } else if now_secs - modified > ttl_secs {
                Ok(None)
            } else {
                match doc_of(text) {
                    Some(v) => Ok(Some(v)),
                    None => Err(Error::CacheCorrupt),
                }
            }
        },
    }
}

/// Decide whether a cache entry is still fresh, from the clock and the
/// file's last-modification time, both in whole seconds.
pub fn entry_is_fresh(now_secs: u64, modified_secs: u64, ttl_secs: u64) -> (r: Result<bool, Error>)
    ensures
        r == fresh_spec(now_secs, modified_secs, ttl_secs),
{
    if modified_secs > now_secs {
        Err(Error::Io)
    } else {
        Ok(now_secs - modified_secs <= ttl_secs)
    }
}

/// Parse the text of a fresh cache file as a JSON document. Text that is
/// not valid JSON is a hard `CacheCorrupt` error, never a silent miss.
pub fn parse_document(text: &str) -> (r: Result<serde_json::Value, Error>)
    ensures
        doc_of(text@) matches Some(v) ==> r == Ok::<serde_json::Value, Error>(v),
        doc_of(text@) is None ==> r == Err::<serde_json::Value, Error>(Error::CacheCorrupt),
{
    match from_json_text(text) {
        Some(v) => Ok(v),
        None => Err(Error::CacheCorrupt),
    }
}

/// The full judgment of one cache read: exactly [`read_spec`] of what the
/// filesystem showed and of the clock.
pub fn get_from_cache(file: &CacheFile, now_secs: u64, ttl_secs: u64) -> (r: Result<
    Option<serde_json::Value>,
    Error,
>)
    ensures
        r == read_spec(file.entry(), now_secs, ttl_secs),
{
    match file {
        CacheFile::Absent => Ok(None),
        CacheFile::Present { modified_secs, text } => {
            match entry_is_fresh(now_secs, *modified_secs, ttl_secs) {
                Err(e) => Err(e),
                Ok(false) => Ok(None),
                Ok(true) => {
                    match parse_document(text.as_str()) {
                        Ok(v) => Ok(Some(v)),
                        Err(e) => Err(e),
                    }
                },
            }
        },
    }
}

/// Serialize a document to the exact text the cache file must hold. The
/// caller overwrites the file at the resolved path with this text, whole.
/// Serialization of a JSON document always succeeds; when the written
/// text parses back at all — it does for any document within the JSON
/// parser's nesting depth — it parses back to this very document.
pub fn write_to_cache(value: &serde_json::Value) -> (r: Result<String, Error>)
    ensures
        r is Ok,
        r matches Ok(text) ==> text@ == text_of(*value),
        r matches Ok(text) ==> (doc_of(text@) is Some ==> doc_of(text@) == Some(*value)),
{
    to_json_text(value)
}

/// Round trip: the text that [`write_to_cache`] produced for a document,
/// read back within the TTL window, yields exactly that document. The
/// first premise — the text parses at all — is what [`write_to_cache`]
/// ensures for every document within the JSON parser's nesting depth; a
/// document nested beyond it reads back as `CacheCorrupt` instead.
pub proof fn lemma_round_trip(
    document: serde_json::Value,
    text: Seq<char>,
    modified_secs: u64,
    now_secs: u64,
    ttl_secs: u64,
)
    requires
        doc_of(text) == Some(document),
        modified_secs <= now_secs,
        now_secs - modified_secs <= ttl_secs,
    ensures
        read_spec(Some((modified_secs, text)), now_secs, ttl_secs) == Ok::<
            Option<serde_json::Value>,
            Error,
        >(Some(document)),
{
}

/// Expiry boundary: a read strictly after `modified + ttl` is a clean miss,
/// and one at `modified + ttl` or earlier still returns the cached document.
pub proof fn lemma_expiry_boundary(
    document: serde_json::Value,
    text: Seq<char>,
    modified_secs: u64,
    now_secs: u64,
    ttl_secs: u64,
)
    requires
        doc_of(text) == Some(document),
        modified_secs <= now_secs,
    ensures
        now_secs - modified_secs > ttl_secs ==> read_spec(
            Some((modified_secs, text)),
            now_secs,
            ttl_secs,
        ) == Ok::<Option<serde_json::Value>, Error>(None),
        now_secs - modified_secs <= ttl_secs ==> read_spec(
            Some((modified_secs, text)),
            now_secs,
            ttl_secs,
        ) == Ok::<Option<serde_json::Value>, Error>(Some(document)),
{
}

/// Miss on absence: a read for a key never written is a clean miss, never
/// an error, whatever the clock and the TTL say.
pub proof fn lemma_miss_on_absence(now_secs: u64, ttl_secs: u64)
    ensures
        read_spec(None, now_secs, ttl_secs) == Ok::<Option<serde_json::Value>, Error>(None),
{
}

/// Corruption surfaces as an error, not a miss: a fresh file whose text is
/// not valid JSON makes the read fail with `CacheCorrupt`.
pub proof fn lemma_corruption_is_error(
    text: Seq<char>,
    modified_secs: u64,
    now_secs: u64,
    ttl_secs: u64,
)
    requires
        doc_of(text) is None,
        modified_secs <= now_secs,
        now_secs - modified_secs <= ttl_secs,
    ensures
        read_spec(Some((modified_secs, text)), now_secs, ttl_secs) == Err::<
            Option<serde_json::Value>,
            Error,
        >(Error::CacheCorrupt),
{
}

/// Last writer wins: a write replaces the file's text whole, so after
/// writing first one document and then another, a fresh read sees exactly
/// the second — the first leaves no trace in the file.
pub proof fn lemma_last_writer_wins(
    first: serde_json::Value,
    second: serde_json::Value,
    second_text: Seq<char>,
    modified_secs: u64,
    now_secs: u64,
    ttl_secs: u64,
)
    requires
        doc_of(second_text) == Some(second),
        modified_secs <= now_secs,
        now_secs - modified_secs <= ttl_secs,
    ensures
        read_spec(Some((modified_secs, second_text)), now_secs, ttl_secs) == Ok::<
            Option<serde_json::Value>,
            Error,
        >(Some(second)),
{
}

/// The cache store configuration: the root directory under which one file
/// per language code lives. Built once at startup from the platform's
/// standard cache location, so that nothing else in the library depends on
/// hidden global state.
pub struct CacheStore {
    pub root: String,
}

impl CacheStore {
    /// A store rooted at the given directory path.
    pub fn new(root: String) -> (s: CacheStore)
        ensures
            s.root@ == root@,
    {
        CacheStore { root }
    }

    /// The on-disk location of a key's cache file:
    /// `<root>/<encoded key>.json`. The key passes through the injective,
    /// filesystem-safe encoding of [`crate::keys`], which leaves every
    /// plain language code as it is. The derivation is deterministic, so
    /// resolving the same key twice names the same file.
    pub fn resolve_path(&self, key: &str) -> (r: String)
        ensures
            r@ == self.root@ + "/"@ + crate::keys::encode_key_spec(key@) + ".json"@,
    {
        let stem = crate::keys::encode_key(key);
        let mut path = String::new();
        path.append(self.root.as_str());
        path.append("/");
        path.append(stem.as_str());
        path.append(".json");
        proof {
            assert(path@ =~= self.root@ + "/"@ + crate::keys::encode_key_spec(key@) + ".json"@);
        }
        path
    }
}

} // verus!
