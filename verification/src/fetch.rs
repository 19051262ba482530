//! The archive fetcher's decision logic and cache-key naming. A cached
//! archive is trusted by its name alone: a present file is reused without
//! any network access, so a fetch into a populated cache is idempotent.
//! The blocking HTTP transfer itself happens outside the library; the
//! library decides whether one is needed and names what to get.

use vstd::prelude::*;
use vstd::string::StrSliceExecFns;
use vstd::string::StringExecFns;

use crate::strutil::str_eq;

verus! {

/// The cache file name of a packaged build:
/// `<name>-<version>-<triple>-<linkage>.tar.gz`. Every part of the
/// build-time configuration that changes the artifacts is in the key, so
/// incompatible builds never collide.
pub open spec fn archive_file_name_spec(
    name: Seq<char>,
    version: Seq<char>,
    triple: Seq<char>,
    linkage: Seq<char>,
) -> Seq<char> {
    name + seq!['-'] + version + seq!['-'] + triple + seq!['-'] + linkage + ".tar.gz"@
}

/// Forms the cache file name of a packaged build.
pub fn archive_file_name(name: &str, version: &str, triple: &str, linkage: &str) -> (r: String)
    ensures
        r@ == archive_file_name_spec(name@, version@, triple@, linkage@),
{
    proof {
        reveal_strlit("-");
        reveal_strlit(".tar.gz");
    }
    let mut r = name.to_owned();
    r.append("-");
    r.append(version);
    r.append("-");
    r.append(triple);
    r.append("-");
    r.append(linkage);
    r.append(".tar.gz");
    proof {
        assert(r@ =~= archive_file_name_spec(name@, version@, triple@, linkage@));
    }
    r
}

/// The versioned release-asset URL for an archive file:
/// `<base>/v<version>/<file>`.
pub open spec fn download_url_spec(base: Seq<char>, version: Seq<char>, file: Seq<char>) -> Seq<
    char,
> {
    base + "/v"@ + version + seq!['/'] + file
}

/// Forms the release-asset URL an archive is fetched from.
pub fn download_url(base: &str, version: &str, file: &str) -> (r: String)
    ensures
        r@ == download_url_spec(base@, version@, file@),
{
    proof {
        reveal_strlit("/v");
        reveal_strlit("/");
    }
    let mut r = base.to_owned();
    r.append("/v");
    r.append(version);
    r.append("/");
    r.append(file);
    proof {
        assert(r@ =~= download_url_spec(base@, version@, file@));
    }
    r
}

/// What a fetch decides.
#[derive(Clone, Copy, Debug, PartialEq, Eq, Structural)]
pub enum FetchAction {
    /// The cache already holds the file: use it, touch no network.
    UseCached,
    /// The cache lacks the file: download it, then store it there.
    Download,
}

/// A fetch downloads exactly when the cache lacks the file.
pub open spec fn fetch_downloads(cache: Set<Seq<char>>, file: Seq<char>) -> bool {
    !cache.contains(file)
}

/// The cache after a fetch holds the file, however the fetch went.
pub open spec fn cache_after_fetch(cache: Set<Seq<char>>, file: Seq<char>) -> Set<Seq<char>> {
    cache.insert(file)
}

/// Law (cache-hit idempotence): a second fetch of the same file, after any
/// first fetch put it into the cache, performs no network access.
pub proof fn lemma_fetch_idempotent(cache: Set<Seq<char>>, file: Seq<char>)
    ensures
        !fetch_downloads(cache_after_fetch(cache, file), file),
{
}

/// Decides one fetch from whether the expected file is already present.
pub fn plan_fetch(cache_has_file: bool) -> (a: FetchAction)
    ensures
        a is Download <==> !cache_has_file,
        a is UseCached <==> cache_has_file,
{
    if cache_has_file {
        FetchAction::UseCached
    } else {
        FetchAction::Download
    }
}

/// Classifies a finished download: a success status passes, any other
/// status and a transport failure without a status are fatal, carrying
/// what is known of the cause.
pub fn download_outcome(status: Option<u16>) -> (r: Result<(), crate::error::BuildError>)
    ensures
        match r {
            Ok(()) => status matches Some(s) && 200 <= s < 300,
            Err(e) => !(status matches Some(s) && 200 <= s < 300) && e
                == crate::error::BuildError::Download(status),
        },
{
    match status {
        Some(s) => {
            if 200 <= s && s < 300 {
                Ok(())
            } else {
                Err(crate::error::BuildError::Download(Some(s)))
            }
        },
        None => Err(crate::error::BuildError::Download(None)),
    }
}

/// Whether the cache, modelled by the file names it holds, has the file.
pub fn cache_lookup(cache: &Vec<String>, file: &str) -> (r: bool)
    ensures
        r == cache.deep_view().to_set().contains(file@),
{
    let n = cache.len();
    let mut i: usize = 0;
    while i < n
        invariant
            i <= n,
            n == cache.len(),
            forall|k: int| 0 <= k < i ==> cache.deep_view()[k] != file@,
        decreases n - i,
    {
        if str_eq(cache[i].as_str(), file) {
            proof {
                assert(cache.deep_view().contains(file@)) by {
                    assert(cache.deep_view()[i as int] == file@);
                }
            }
            return true;
        }
        i = i + 1;
    }
    proof {
        if cache.deep_view().contains(file@) {
            let k = choose|k: int|
                0 <= k < cache.deep_view().len() && cache.deep_view()[k] == file@;
        }
    }
    false
}

/// One fetch against the cache: reports whether a download had to be
/// performed, and leaves the cache holding the file either way.
pub fn fetch_step(cache: &mut Vec<String>, file: &str) -> (downloaded: bool)
    ensures
        downloaded == fetch_downloads(old(cache).deep_view().to_set(), file@),
        final(cache).deep_view().to_set() == cache_after_fetch(
            old(cache).deep_view().to_set(),
            file@,
        ),
{
    broadcast use vstd::prelude::Seq::lemma_push_to_set_commute;

    if cache_lookup(cache, file) {
        proof {
            assert(cache.deep_view().to_set().insert(file@) =~= cache.deep_view().to_set());
        }
        false
    } else {
        let ghost before = cache.deep_view();
        cache.push(file.to_owned());
        proof {
            assert(cache.deep_view() =~= before.push(file@));
            assert(cache.deep_view().to_set() =~= before.to_set().insert(file@));
        }
        true
    }
}

} // verus!
