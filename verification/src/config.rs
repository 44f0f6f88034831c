//! Settings of a run.
use vstd::prelude::*;

verus! {

/// The settings of a run: whether to bypass the cache, whether to print
/// JSON, and where the cache lives.
#[derive(Debug)]
pub struct AppConfig {
    pub no_cache: bool,
    pub json_output: bool,
    pub cache_dir: std::path::PathBuf,
}

/// The path that `Path::join` makes of `base` and `name`.
pub uninterp spec fn path_joined(base: std::path::PathBuf, name: Seq<char>) -> std::path::PathBuf;

/// The path that `PathBuf::from` makes of the text `s`.
pub uninterp spec fn path_from(s: Seq<char>) -> std::path::PathBuf;

/// `dirs::cache_dir()`: the platform's cache directory. It depends on the
/// platform and the environment, so nothing is stated of it.
#[verifier::external_body]
fn platform_cache_dir() -> Option<std::path::PathBuf> {
    dirs::cache_dir()
}

/// `PathBuf::from(s)`: the path of the text `s`.
#[verifier::external_body]
fn path_of(s: &str) -> (r: std::path::PathBuf)
    ensures
        r == path_from(s@),
{
    std::path::PathBuf::from(s)
}

/// `Path::join`: `base` with `name` appended.
#[verifier::external_body]
fn join_path(base: &std::path::PathBuf, name: &str) -> (r: std::path::PathBuf)
    ensures
        r == path_joined(*base, name@),
{
    base.join(name)
}

/// The cache directory for a platform cache directory, if there is one:
/// `youtube-cli` inside it, else inside `.cache`.
pub open spec fn cache_dir_of(platform: Option<std::path::PathBuf>) -> std::path::PathBuf {
    match platform {
        Some(d) => path_joined(d, "youtube-cli"@),
        None => path_joined(path_from(".cache"@), "youtube-cli"@),
    }
}

/// The cache directory for the platform's cache directory `platform`.
pub fn cache_dir_in(platform: Option<std::path::PathBuf>) -> (r: std::path::PathBuf)
    ensures
        r == cache_dir_of(platform),
{
    let base = match platform {
        Some(d) => d,
        None => path_of(".cache"),
    };
    join_path(&base, "youtube-cli")
}

impl AppConfig {
    /// The settings for the given flags; the cache is the `youtube-cli`
    /// directory in the platform's cache directory (or in `.cache`).
    pub fn load(no_cache: bool, json_output: bool) -> (r: AppConfig)
        ensures
            r.no_cache == no_cache,
            r.json_output == json_output,
            exists|platform: Option<std::path::PathBuf>| r.cache_dir == cache_dir_of(platform),
    {
        let platform = platform_cache_dir();
        let ghost p = platform;
        let cache_dir = cache_dir_in(platform);
        proof {
            assert(cache_dir == cache_dir_of(p));
        }
        AppConfig { no_cache, json_output, cache_dir }
    }
}

} // verus!
