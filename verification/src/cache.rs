//! The local cache: file names, lifetimes of entries, and cache keys. Reading
//! and writing the files belongs to the caller.
use vstd::prelude::*;
use sha2::Digest as _;
use crate::model::opt_view;
use crate::seqs::{flat_map, lemma_flat_map_all, lemma_flat_map_step};
use crate::text::{
    chars_of, folded, to_lowercase, push_char, push_str, string_from_chars, string_of,
    trim_start_char, trim_start_char_exec,
};

verus! {

#[verifier::external_type_specification]
#[verifier::external_body]
pub struct ExPathBuf(std::path::PathBuf);

/// Lifetime of cached search results, in seconds (7 days).
pub const SEARCH_TTL_SECS: u64 = 7 * 24 * 60 * 60;

/// Lifetime of cached transcripts, in seconds (30 days).
pub const TRANSCRIPT_TTL_SECS: u64 = 30 * 24 * 60 * 60;

/// Lifetime of cached video details, in seconds (7 days).
pub const VIDEO_TTL_SECS: u64 = 7 * 24 * 60 * 60;

/// Lifetime of cached channel listings, in seconds (1 day).
pub const CHANNEL_TTL_SECS: u64 = 24 * 60 * 60;

/// Lifetime of cached handle resolutions, in seconds (30 days).
pub const CHANNEL_RESOLVE_TTL_SECS: u64 = 30 * 24 * 60 * 60;

/// The cache in a directory; reading can be switched off to force fresh data.
#[derive(Debug)]
pub struct Cache {
    dir: std::path::PathBuf,
    read_enabled: bool,
}

/// Data read from the cache, with the time its file was written (seconds
/// since the Unix epoch).
#[derive(Debug)]
pub struct CacheHit<T> {
    pub data: T,
    pub cached_at: u64,
}

/// A cache file to read: its name in the cache directory and how long its
/// content stays valid.
#[derive(Debug)]
pub struct CacheSlot {
    pub file_name: String,
    pub ttl_secs: u64,
}

pub open spec fn search_file(key: Seq<char>) -> Seq<char> {
    "search_"@ + key + ".json"@
}

pub open spec fn transcript_file(video_id: Seq<char>, lang: Seq<char>) -> Seq<char> {
    "transcript_"@ + video_id + "_"@ + lang + ".json"@
}

pub open spec fn video_file(video_id: Seq<char>) -> Seq<char> {
    "video_"@ + video_id + ".json"@
}

pub open spec fn channel_file(key: Seq<char>) -> Seq<char> {
    "channel_"@ + key + ".json"@
}

/// Handles are stored without their `@`, in lower case.
pub open spec fn channel_id_file(handle: Seq<char>) -> Seq<char> {
    "channel_id_"@ + folded(trim_start_char(handle, '@')) + ".json"@
}

pub open spec fn slot_is(s: Option<CacheSlot>, enabled: bool, name: Seq<char>, ttl: u64) -> bool {
    if enabled {
        s matches Some(slot) && slot.file_name@ == name && slot.ttl_secs == ttl
    } else {
        s is None
    }
}

fn file_name(prefix: &str, key: &str, suffix: &str) -> (r: String)
    ensures
        r@ == prefix@ + key@ + suffix@,
{
    let mut f = string_of(prefix);
    push_str(&mut f, key);
    push_str(&mut f, suffix);
    f
}

impl Cache {
    /// Whether cached data may be read.
    pub closed spec fn reading(&self) -> bool {
        self.read_enabled
    }

    /// The directory of the cache.
    pub closed spec fn directory(&self) -> std::path::PathBuf {
        self.dir
    }

    /// A cache in `cache_dir`; with `no_cache`, nothing is read from it (but
    /// fresh data is still written).
    pub fn new(cache_dir: std::path::PathBuf, no_cache: bool) -> (r: Cache)
        ensures
            r.directory() == cache_dir,
            r.reading() == !no_cache,
    {
        Cache { dir: cache_dir, read_enabled: !no_cache }
    }

    /// The directory of the cache.
    pub fn dir(&self) -> (r: &std::path::PathBuf)
        ensures
            *r == self.directory(),
    {
        &self.dir
    }

    /// Where cached search results for `cache_key` are read, unless reading is off.
    pub fn get_search(&self, cache_key: &str) -> (r: Option<CacheSlot>)
        ensures
            slot_is(r, self.reading(), search_file(cache_key@), SEARCH_TTL_SECS),
    {
        if !self.read_enabled {
            return None;
        }
        Some(CacheSlot { file_name: file_name("search_", cache_key, ".json"), ttl_secs: SEARCH_TTL_SECS })
    }

    /// Where search results for `cache_key` are written.
    pub fn set_search(&self, cache_key: &str) -> (r: String)
        ensures
            r@ == search_file(cache_key@),
    {
        file_name("search_", cache_key, ".json")
    }

    /// Where a cached transcript is read, unless reading is off.
    pub fn get_transcript(&self, video_id: &str, lang: &str) -> (r: Option<CacheSlot>)
        ensures
            slot_is(r, self.reading(), transcript_file(video_id@, lang@), TRANSCRIPT_TTL_SECS),
    {
        if !self.read_enabled {
            return None;
        }
        Some(CacheSlot { file_name: self.set_transcript(video_id, lang), ttl_secs: TRANSCRIPT_TTL_SECS })
    }

    /// Where a transcript is written.
    pub fn set_transcript(&self, video_id: &str, lang: &str) -> (r: String)
        ensures
            r@ == transcript_file(video_id@, lang@),
    {
        let mut f = string_of("transcript_");
        push_str(&mut f, video_id);
        push_str(&mut f, "_");
        push_str(&mut f, lang);
        push_str(&mut f, ".json");
        f
    }

    /// Where cached video details are read, unless reading is off.
    pub fn get_video(&self, video_id: &str) -> (r: Option<CacheSlot>)
        ensures
            slot_is(r, self.reading(), video_file(video_id@), VIDEO_TTL_SECS),
    {
        if !self.read_enabled {
            return None;
        }
        Some(CacheSlot { file_name: file_name("video_", video_id, ".json"), ttl_secs: VIDEO_TTL_SECS })
    }

    /// Where video details are written.
    pub fn set_video(&self, video_id: &str) -> (r: String)
        ensures
            r@ == video_file(video_id@),
    {
        file_name("video_", video_id, ".json")
    }

    /// Where a cached channel listing is read, unless reading is off.
    pub fn get_channel(&self, cache_key: &str) -> (r: Option<CacheSlot>)
        ensures
            slot_is(r, self.reading(), channel_file(cache_key@), CHANNEL_TTL_SECS),
    {
        if !self.read_enabled {
            return None;
        }
        Some(CacheSlot { file_name: file_name("channel_", cache_key, ".json"), ttl_secs: CHANNEL_TTL_SECS })
    }

    /// Where a channel listing is written.
    pub fn set_channel(&self, cache_key: &str) -> (r: String)
        ensures
            r@ == channel_file(cache_key@),
    {
        file_name("channel_", cache_key, ".json")
    }

    /// Where the cached resolution of a handle is read, unless reading is off.
    pub fn get_channel_id(&self, handle: &str) -> (r: Option<CacheSlot>)
        ensures
            slot_is(r, self.reading(), channel_id_file(handle@), CHANNEL_RESOLVE_TTL_SECS),
    {
        if !self.read_enabled {
            return None;
        }
        Some(CacheSlot { file_name: self.set_channel_id(handle), ttl_secs: CHANNEL_RESOLVE_TTL_SECS })
    }

    /// Where the resolution of a handle is written.
    pub fn set_channel_id(&self, handle: &str) -> (r: String)
        ensures
            r@ == channel_id_file(handle@),
    {
        let hv = chars_of(handle);
        let trimmed = trim_start_char_exec(&hv, '@');
        let t = string_from_chars(&trimmed);
        let normalized = to_lowercase(t.as_str());
        file_name("channel_id_", normalized.as_str(), ".json")
    }

    /// The key of a channel listing: the first 8 bytes of the SHA-256 of
    /// the channel ID, sort and query (each followed by a zero byte but the
    /// last), in lower-case hex.
    pub fn channel_cache_key(channel_id: &str, sort: &str, query: &str) -> (r: String)
        ensures
            r@ == cache_key(channel_id@, sort@, query@),
            r@.len() == 16,
    {
        key_of_three(channel_id, sort, query)
    }

    /// The key of a search: like a channel key, over the query, sort and
    /// duration filter.
    pub fn search_cache_key(query: &str, sort: &str, duration: &str) -> (r: String)
        ensures
            r@ == cache_key(query@, sort@, duration@),
            r@.len() == 16,
    {
        key_of_three(query, sort, duration)
    }
}

/// Whether an entry `age` old (whole seconds and nanoseconds) has outlived
/// a lifetime of `ttl_secs` seconds.
pub open spec fn expired(age_secs: u64, age_nanos: u32, ttl_secs: u64) -> bool {
    age_secs > ttl_secs || (age_secs == ttl_secs && age_nanos > 0)
}

/// Whether a cache entry of the given age is too old to be used.
pub fn is_expired(age_secs: u64, age_nanos: u32, ttl_secs: u64) -> (r: bool)
    ensures
        r == expired(age_secs, age_nanos, ttl_secs),
{
    age_secs > ttl_secs || (age_secs == ttl_secs && age_nanos > 0)
}

// ---------------------------------------------------------------------------
// Keys
// ---------------------------------------------------------------------------

/// The SHA-256 digest of `data`, as the `sha2` crate computes it.
pub uninterp spec fn sha256(data: Seq<u8>) -> Seq<u8>;

/// `sha2::Sha256::digest`: the 32-byte digest of `data`.
#[verifier::external_body]
fn sha256_digest(data: &[u8]) -> (r: Vec<u8>)
    ensures
        r@ == sha256(data@),
        r@.len() == 32,
{
    sha2::Sha256::digest(data).to_vec()
}

pub open spec fn hex_digit(d: u8) -> char {
    if d < 10 {
        (0x30 + d) as char
    } else {
        (0x61 + d - 10) as char
    }
}

pub open spec fn hex_byte_fn() -> spec_fn(u8) -> Seq<char> {
    |b: u8| seq![hex_digit(b / 16), hex_digit(b % 16)]
}

/// Lower-case hex of `data`, two digits per byte.
pub open spec fn hex_lower(data: Seq<u8>) -> Seq<char> {
    flat_map(data, hex_byte_fn())
}

/// `hex::encode`: lower-case hex, two digits per byte.
#[verifier::external_body]
fn hex_encode(data: &[u8]) -> (r: String)
    ensures
        r@ == hex_lower(data@),
{
    hex::encode(data)
}

/// The bytes hashed for a key over three parts: their UTF-8 forms, with a
/// zero byte between two parts.
pub open spec fn key_data(a: Seq<char>, b: Seq<char>, c: Seq<char>) -> Seq<u8> {
    vstd::utf8::encode_utf8(a) + seq![0u8] + vstd::utf8::encode_utf8(b) + seq![0u8] + vstd::utf8::encode_utf8(c)
}

/// The key over three parts.
pub open spec fn cache_key(a: Seq<char>, b: Seq<char>, c: Seq<char>) -> Seq<char> {
    hex_lower(sha256(key_data(a, b, c)).take(8))
}

proof fn lemma_hex_len(data: Seq<u8>)
    ensures
        hex_lower(data).len() == 2 * data.len(),
    decreases data.len(),
{
    if data.len() > 0 {
        lemma_hex_len(data.drop_last());
    }
}

fn key_of_three(a: &str, b: &str, c: &str) -> (r: String)
    ensures
        r@ == cache_key(a@, b@, c@),
        r@.len() == 16,
{
    let mut data: Vec<u8> = Vec::new();
    data.extend_from_slice(a.as_bytes());
    data.push(0u8);
    data.extend_from_slice(b.as_bytes());
    data.push(0u8);
    data.extend_from_slice(c.as_bytes());
    proof {
        assert(data@ =~= vstd::utf8::encode_utf8(a@) + seq![0u8] + vstd::utf8::encode_utf8(b@) + seq![0u8] + vstd::utf8::encode_utf8(c@));
    }
    let digest = sha256_digest(data.as_slice());
    let mut first: Vec<u8> = Vec::new();
    let mut i: usize = 0;
    while i < 8
        invariant
            i <= 8,
            digest@.len() == 32,
            first@ == digest@.take(i as int),
        decreases 8 - i,
    {
        first.push(digest[i]);
        proof {
            assert(first@ =~= digest@.take(i + 1));
        }
        i = i + 1;
    }
    proof {
        lemma_hex_len(first@);
    }
    hex_encode(first.as_slice())
}

} // verus!
