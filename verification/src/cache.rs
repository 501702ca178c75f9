//! The decisions of the cache manager: whether the cached dataset is stale,
//! whether to fetch, and whether what was fetched replaces what is on disk.
//!
//! The functions take what was observed of the file and the clock as plain
//! values, and say what is to be done.

use crate::error::Error;
use vstd::prelude::*;

verus! {

/// The age, in seconds, from which a cached dataset is stale: 60 days.
pub const STALENESS_THRESHOLD_SECS: u64 = 60 * 60 * 24 * 60;

/// The time allowed for connecting to the dataset's server, in seconds.
pub const CONNECT_TIMEOUT_SECS: u64 = 5;

/// The address from which the dataset is fetched.
pub fn dataset_url() -> (url: &'static str)
    ensures
        url@ == "http://www.edrdg.org/kanjidic/kanjidic2.xml.gz"@,
{
    "http://www.edrdg.org/kanjidic/kanjidic2.xml.gz"
}

/// The name of the cache file inside the data directory.
pub fn cache_file_name() -> (name: &'static str)
    ensures
        name@ == "kanjidic2.xml.gz"@,
{
    "kanjidic2.xml.gz"
}

/// A point in time: seconds and nanoseconds since the epoch.
#[derive(Clone, Copy, Debug, PartialEq, Eq, Structural)]
pub struct Timestamp {
    pub secs: u64,
    pub nanos: u32,
}

impl Timestamp {
    /// The nanoseconds from the epoch to this point in time.
    pub open spec fn total_nanos(self) -> int {
        self.secs * 1_000_000_000 + self.nanos
    }
}

/// The staleness threshold in nanoseconds.
pub open spec fn threshold_nanos() -> int {
    STALENESS_THRESHOLD_SECS * 1_000_000_000
}

/// Whether a file last modified at `modified` is stale at `now`: its age is
/// the threshold or more. A file modified after `now` has no age.
pub open spec fn is_old(modified: Timestamp, now: Timestamp) -> Option<bool> {
    if now.total_nanos() < modified.total_nanos() {
        None
    } else {
        Some(now.total_nanos() - modified.total_nanos() >= threshold_nanos())
    }
}

/// Decides whether a file last modified at `modified` is stale at `now`.
///
/// Fails with `Error::Time` exactly where the file was modified after `now`.
pub fn file_is_old(modified: Timestamp, now: Timestamp) -> (r: Result<bool, Error>)
    ensures
        match r {
            Ok(old) => is_old(modified, now) == Some(old),
            Err(e) => is_old(modified, now) is None && e is Time,
        },
{
    let m: u128 = modified.secs as u128 * 1_000_000_000 + modified.nanos as u128;
    let n: u128 = now.secs as u128 * 1_000_000_000 + now.nanos as u128;
    if n < m {
        Err(Error::Time)
    } else {
        Ok(n - m >= STALENESS_THRESHOLD_SECS as u128 * 1_000_000_000)
    }
}

/// What the cache manager does about the cache file.
#[derive(Clone, Copy, Debug, PartialEq, Eq, Structural)]
pub enum CachePlan {
    /// The file is fresh: it is used as it is, and nothing is fetched.
    UseCache,
    /// There is no file: the dataset is fetched and written to a new file.
    FetchAndCreate,
    /// The file is stale, or refreshing is forced: the dataset is fetched and
    /// replaces the file only if it differs from it.
    FetchAndCompare,
}

/// Whether an existing cache file is refreshed: it is stale, or refreshing is
/// forced. `None` where the file's age cannot be computed.
pub open spec fn refresh_due(modified: Timestamp, now: Timestamp, force: bool) -> Option<bool> {
    match is_old(modified, now) {
        Some(old) => Some(old || force),
        None => None,
    }
}

/// Decides whether the dataset is fetched anew for a cache file that exists
/// and was last modified at `modified`.
///
/// Fails with `Error::Time` exactly where the file was modified after `now`,
/// whether or not refreshing is forced.
pub fn download_kanjidic_cached(modified: Timestamp, now: Timestamp, force_invalidate: bool) -> (r:
    Result<bool, Error>)
    ensures
        match r {
            Ok(fetch) => refresh_due(modified, now, force_invalidate) == Some(fetch),
            Err(e) => refresh_due(modified, now, force_invalidate) is None && e is Time,
        },
{
    let old = file_is_old(modified, now)?;
    Ok(old || force_invalidate)
}

/// The plan for a cache file that was last modified at `modified`, or that
/// does not exist where `modified` is `None`.
pub open spec fn plan(modified: Option<Timestamp>, now: Timestamp, force: bool) -> Option<
    CachePlan,
> {
    match modified {
        None => Some(CachePlan::FetchAndCreate),
        Some(m) => match refresh_due(m, now, force) {
            Some(true) => Some(CachePlan::FetchAndCompare),
            Some(false) => Some(CachePlan::UseCache),
            None => None,
        },
    }
}

/// Decides what to do about the cache file, from whether it exists, when it
/// was last modified, and the present time.
///
/// An absent file is fetched and created. A fresh file is used without any
/// fetch, unless refreshing is forced. Fails with `Error::Time` exactly
/// where the file exists and was modified after `now`.
pub fn load_kanji_xml_data(
    modified: Option<Timestamp>,
    now: Timestamp,
    force_invalidate: bool,
) -> (r: Result<CachePlan, Error>)
    ensures
        match r {
            Ok(p) => plan(modified, now, force_invalidate) == Some(p),
            Err(e) => plan(modified, now, force_invalidate) is None && e is Time,
        },
{
    match modified {
        None => Ok(CachePlan::FetchAndCreate),
        Some(m) => {
            if download_kanjidic_cached(m, now, force_invalidate)? {
                Ok(CachePlan::FetchAndCompare)
            } else {
                Ok(CachePlan::UseCache)
            }
        },
    }
}

/// The SHA-256 digest of `data`.
pub uninterp spec fn sha256_digest(data: Seq<u8>) -> Seq<u8>;

/// Calls `sha2::Sha256::digest`: the result is the digest of `data`, 32
/// bytes long.
#[verifier::external_body]
fn sha256(data: &[u8]) -> (digest: Vec<u8>)
    ensures
        digest@ == sha256_digest(data@),
        digest@.len() == 32,
{
    <sha2::Sha256 as sha2::Digest>::digest(data).to_vec()
}

/// Computes the digest by which two datasets are compared: SHA-256, 32 bytes.
pub fn content_digest(data: &[u8]) -> (digest: Vec<u8>)
    ensures
        digest@ == sha256_digest(data@),
        digest@.len() == 32,
{
    sha256(data)
}

/// Decides whether two digests, or any two byte strings, are equal.
pub fn same_bytes(a: &Vec<u8>, b: &Vec<u8>) -> (r: bool)
    ensures
        r == (a@ == b@),
{
    if a.len() != b.len() {
        return false;
    }
    let mut i: usize = 0;
    while i < a.len()
        invariant
            a.len() == b.len(),
            i <= a.len(),
            forall|j: int| 0 <= j < i ==> a@[j] == b@[j],
        decreases a.len() - i,
    {
        if a[i] != b[i] {
            return false;
        }
        i += 1;
    }
    assert(a@ =~= b@);
    true
}

/// Decides whether what is on disk and what was fetched have the same
/// digest. Equal digests are taken to mean equal content.
pub fn hashes_match(on_disk: &[u8], downloaded: &[u8]) -> (r: bool)
    ensures
        r == (sha256_digest(on_disk@) == sha256_digest(downloaded@)),
        on_disk@ == downloaded@ ==> r,
{
    let disk_shasum = content_digest(on_disk);
    let downloaded_shasum = content_digest(downloaded);
    same_bytes(&downloaded_shasum, &disk_shasum)
}

/// The view of the cache file's content, where the file exists.
pub open spec fn content_view(on_disk: Option<&[u8]>) -> Option<Seq<u8>> {
    match on_disk {
        Some(b) => Some(b@),
        None => None,
    }
}

/// Whether carrying out the plan `p` writes the fetched dataset to the cache
/// file, which held `before` (nothing, where there was no file).
///
/// A new file is always written. A file that is compared is written only
/// where its digest differs from that of what was fetched.
pub open spec fn writes(p: CachePlan, before: Option<Seq<u8>>, fetched: Seq<u8>) -> bool {
    match p {
        CachePlan::UseCache => false,
        CachePlan::FetchAndCreate => true,
        CachePlan::FetchAndCompare => match before {
            Some(b) => sha256_digest(b) != sha256_digest(fetched),
            None => true,
        },
    }
}

/// What the cache file holds once the plan `p` has been carried out: the
/// fetched dataset where it was written, and what the file held otherwise.
pub open spec fn content_after(p: CachePlan, before: Option<Seq<u8>>, fetched: Seq<u8>) -> Option<
    Seq<u8>,
> {
    if writes(p, before, fetched) {
        Some(fetched)
    } else {
        before
    }
}

/// Decides whether the fetched dataset is written to the cache file, which
/// holds `on_disk` where it exists.
pub fn must_write(p: CachePlan, on_disk: Option<&[u8]>, downloaded: &[u8]) -> (r: bool)
    ensures
        r == writes(p, content_view(on_disk), downloaded@),
{
    match p {
        CachePlan::UseCache => false,
        CachePlan::FetchAndCreate => true,
        CachePlan::FetchAndCompare => match on_disk {
            Some(b) => {
                let same = hashes_match(b, downloaded);
                !same
            },
            None => true,
        },
    }
}

/// A cache file that holds what the server sends keeps its content whatever
/// the plan, however often it is refreshed: its bytes, and so its digest, are
/// the same before and after.
pub proof fn lemma_refresh_is_idempotent(p: CachePlan, content: Seq<u8>)
    ensures
        content_after(p, Some(content), content) == Some(content),
        sha256_digest(content_after(p, Some(content), content)->0) == sha256_digest(content),
        p == CachePlan::FetchAndCompare ==> !writes(p, Some(content), content),
{
}

/// A stale cache file is fetched anew and compared, and it is replaced
/// exactly where the digest of what was fetched differs from its own.
pub proof fn lemma_stale_cache_is_compared(
    modified: Timestamp,
    now: Timestamp,
    force: bool,
    content: Seq<u8>,
    fetched: Seq<u8>,
)
    requires
        now.total_nanos() - modified.total_nanos() >= threshold_nanos(),
    ensures
        plan(Some(modified), now, force) == Some(CachePlan::FetchAndCompare),
        content_after(CachePlan::FetchAndCompare, Some(content), fetched) == if sha256_digest(
            content,
        ) == sha256_digest(fetched) {
            Some(content)
        } else {
            Some(fetched)
        },
{
}

/// On a first run, when there is no cache file, the dataset is fetched and
/// the new file holds exactly what was fetched.
pub proof fn lemma_first_run_creates(now: Timestamp, force: bool, fetched: Seq<u8>)
    ensures
        plan(None, now, force) == Some(CachePlan::FetchAndCreate),
        content_after(CachePlan::FetchAndCreate, None, fetched) == Some(fetched),
{
}

/// A cache file younger than the threshold is used without any fetch, unless
/// refreshing is forced, and keeps its content.
pub proof fn lemma_fresh_cache_is_kept(
    modified: Timestamp,
    now: Timestamp,
    content: Seq<u8>,
    fetched: Seq<u8>,
)
    requires
        0 <= now.total_nanos() - modified.total_nanos() < threshold_nanos(),
    ensures
        plan(Some(modified), now, false) == Some(CachePlan::UseCache),
        content_after(CachePlan::UseCache, Some(content), fetched) == Some(content),
{
}

/// The room to reserve for a dataset of the announced length: the length,
/// where the server announced one and a buffer of that length can be asked
/// for on this machine, and none otherwise.
pub open spec fn reserved(content_length: Option<u64>) -> int {
    match content_length {
        Some(l) => if l <= isize::MAX {
            l as int
        } else {
            0
        },
        None => 0,
    }
}

/// Decides how much room is reserved for the dataset before it is received.
/// A missing length, or one that no buffer can have, reserves none; neither
/// is a failure.
pub fn buffer_capacity(content_length: Option<u64>) -> (n: usize)
    ensures
        n == reserved(content_length),
{
    match content_length {
        Some(resp_len) => {
            if resp_len <= isize::MAX as u64 {
                resp_len as usize
            } else {
                0
            }
        },
        None => 0,
    }
}

/// Makes the buffer that receives the dataset: an empty buffer, made with
/// the room that `buffer_capacity` decides on.
pub fn response_data_to_buffer(content_length: Option<u64>) -> (buffer: Vec<u8>)
    ensures
        buffer@ == Seq::<u8>::empty(),
{
    Vec::with_capacity(buffer_capacity(content_length))
}

} // verus!
