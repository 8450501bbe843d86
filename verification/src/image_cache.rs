//! The decisions of the image cache: where an image is kept, whether what is
//! kept is still fresh, who fetches an image that several callers ask for at
//! once, what is accepted from upstream, and what is evicted.
//!
//! Files and the network are the caller's business. It reports what it found
//! and is told what to do.

use crate::text::{chars_of, concat, digit_char, starts_with};
use vstd::prelude::*;
use vstd::string::*;

verus! {

/// How long a kept image is served without asking upstream again, in seconds.
pub const CACHE_TTL_SECS: u64 = 86400;

/// The largest image that is accepted, in bytes.
pub const MAX_FILE_SIZE: u64 = 20971520;

/// The seconds within which an image must be fetched.
pub const FETCH_TIMEOUT_SECS: u64 = 15;

/// How the cache names itself to the servers of images.
pub const FETCH_USER_AGENT: &'static str = "Mozilla/5.0 (compatible; NoteDeck/0.0.11)";

/// The size to which the cache is brought back when it has grown beyond it,
/// in bytes.
pub const MAX_CACHE_SIZE: u64 = 524288000;

/// The SHA-256 digest of a sequence of bytes.
pub uninterp spec fn sha256(data: Seq<u8>) -> Seq<u8>;

/// `sha2::Sha256` through `Digest::digest`: the SHA-256 digest of the bytes,
/// which has 32 bytes.
#[verifier::external_body]
pub(crate) fn sha256_digest(data: &[u8]) -> (r: Vec<u8>)
    ensures
        r@ == sha256(data@),
        r@.len() == 32,
{
    <sha2::Sha256 as sha2::Digest>::digest(data).to_vec()
}

/// The bytes in hexadecimal, two small digits each.
pub open spec fn hex_of_bytes(bytes: Seq<u8>) -> Seq<char>
    decreases bytes.len(),
{
    if bytes.len() == 0 {
        Seq::empty()
    } else {
        hex_of_bytes(bytes.drop_last()).push(digit_char((bytes.last() / 16) as nat)).push(
            digit_char((bytes.last() % 16) as nat),
        )
    }
}

/// Every byte takes two hexadecimal digits.
pub proof fn lemma_hex_of_bytes_len(bytes: Seq<u8>)
    ensures
        hex_of_bytes(bytes).len() == 2 * bytes.len(),
    decreases bytes.len(),
{
    if bytes.len() > 0 {
        lemma_hex_of_bytes_len(bytes.drop_last());
    }
}

/// The key under which the image at `url` is kept: the SHA-256 digest of the
/// address, in hexadecimal.
pub open spec fn cache_key(url: Seq<char>) -> Seq<char> {
    hex_of_bytes(sha256(vstd::utf8::encode_utf8(url)))
}

fn hex_digit(d: u8) -> (c: char)
    requires
        d < 16,
    ensures
        c == digit_char(d as nat),
{
    if d < 10 {
        (48 + d) as char
    } else {
        (87 + d) as char
    }
}

/// The key under which the image at `input` is kept; it has 64 characters.
pub fn hex_hash(input: &str) -> (r: String)
    ensures
        r@ == cache_key(input@),
        r@.len() == 64,
{
    let digest = sha256_digest(input.as_bytes());
    let mut out = String::new();
    let mut i: usize = 0;
    while i < digest.len()
        invariant
            i <= digest.len(),
            out@ == hex_of_bytes(digest@.take(i as int)),
        decreases digest.len() - i,
    {
        let b = digest[i];
        proof {
            assert(digest@.take(i + 1).drop_last() == digest@.take(i as int));
            assert(digest@.take(i + 1).last() == b);
        }
        out.push(hex_digit(b / 16));
        out.push(hex_digit(b % 16));
        i += 1;
    }
    proof {
        assert(digest@.take(digest.len() as int) == digest@);
        lemma_hex_of_bytes_len(digest@);
    }
    out
}

/// A kept image: where its bytes are, and what kind of content they are.
#[derive(Debug, Clone, PartialEq, Eq)]
pub struct CacheEntry {
    pub path: String,
    pub content_type: String,
}

impl CacheEntry {
    /// A copy of the entry.
    pub fn duplicate(&self) -> (r: CacheEntry)
        ensures
            r == *self,
    {
        CacheEntry { path: self.path.clone(), content_type: self.content_type.clone() }
    }
}

/// Where the image of an address is kept: its key, and the names of the file
/// with its bytes and of the file with its content type.
#[derive(Debug, Clone, PartialEq, Eq)]
pub struct CacheLocation {
    pub hash: String,
    pub data_name: String,
    pub meta_name: String,
}

/// What the caller found on disk for an image.
#[derive(Debug, Clone, PartialEq, Eq)]
pub struct CacheProbe {
    /// Whether the file with the bytes exists.
    pub data_exists: bool,
    /// Whether the file with the content type exists.
    pub meta_exists: bool,
    /// The time since the bytes were last written, as whole seconds and the
    /// nanoseconds beyond them; zero if they were written in the future,
    /// `None` if the time cannot be had.
    pub age: Option<(u64, u32)>,
    /// What the file with the content type holds; `None` if it cannot be
    /// read.
    pub content_type: Option<String>,
}

/// Whether an age is beyond the time for which an image is kept: more than
/// twenty-four hours.
pub open spec fn is_stale(age: (u64, u32)) -> bool {
    age.0 > 86400 || (age.0 == 86400 && age.1 > 0)
}

/// Whether what was found on disk is a usable entry.
pub open spec fn is_hit(probe: CacheProbe) -> bool {
    &&& probe.data_exists
    &&& probe.meta_exists
    &&& probe.age matches Some(age)
    &&& !is_stale(age)
    &&& probe.content_type is Some
}

/// Decides whether what was found on disk is served: both files are there,
/// the bytes are at most twenty-four hours old, and the content type can be
/// read. `data_path` is where the bytes are.
pub fn check_cache(data_path: &str, probe: &CacheProbe) -> (r: Option<CacheEntry>)
    ensures
        match r {
            Some(e) => is_hit(*probe) && e.path@ == data_path@ && Some(e.content_type)
                == probe.content_type,
            None => !is_hit(*probe),
        },
{
    if !probe.data_exists || !probe.meta_exists {
        return None;
    }
    let age = match probe.age {
        Some(a) => a,
        None => {
            return None;
        },
    };
    if age.0 > CACHE_TTL_SECS || (age.0 == CACHE_TTL_SECS && age.1 > 0) {
        return None;
    }
    match &probe.content_type {
        Some(ct) => Some(CacheEntry { path: data_path.to_owned(), content_type: ct.clone() }),
        None => None,
    }
}

/// An entry that is older than a day is never served, whatever else was
/// found.
pub proof fn lemma_stale_entry_is_a_miss(probe: CacheProbe)
    requires
        probe.age matches Some(age) && age.0 > 86400,
    ensures
        !is_hit(probe),
{
}

/// Who fetches an image that is not kept.
#[derive(Debug, Clone, Copy, PartialEq, Eq)]
pub enum FetchRole {
    /// This caller fetches, publishes the outcome and then calls
    /// [`ImageCache::finish`].
    Leader,
    /// Another caller is fetching: wait for what it publishes.
    Waiter,
}

/// What a caller that asks for an image does next.
#[derive(Debug, Clone, PartialEq, Eq)]
pub enum FetchStep {
    /// The entry on disk is served.
    Hit(CacheEntry),
    /// Another caller is fetching the image: wait for what it publishes.
    Wait,
    /// Fetch the image; this caller has been entered as the one who does.
    Fetch,
}

/// The image cache: the keys of the images that are being fetched right now.
pub struct ImageCache {
    inflight: Vec<String>,
}

impl View for ImageCache {
    type V = Set<Seq<char>>;

    closed spec fn view(&self) -> Set<Seq<char>> {
        Set::new(|k: Seq<char>| exists|i: int| 0 <= i < self.inflight@.len() && self.inflight@[i]@ == k)
    }
}

/// The role of a caller that claims the fetch of `key` when the fetches in
/// `inflight` are under way.
pub open spec fn role_of(inflight: Set<Seq<char>>, key: Seq<char>) -> FetchRole {
    if inflight.contains(key) {
        FetchRole::Waiter
    } else {
        FetchRole::Leader
    }
}

/// The fetches under way after `count` callers, one after the other, have
/// claimed the fetch of `key` and none has finished.
pub open spec fn after_claims(inflight: Set<Seq<char>>, key: Seq<char>, count: nat) -> Set<Seq<char>> {
    if count == 0 {
        inflight
    } else {
        inflight.insert(key)
    }
}

/// The number of leaders among `count` callers that, one after the other,
/// claim the fetch of `key` while none finishes.
pub open spec fn leaders_among(inflight: Set<Seq<char>>, key: Seq<char>, count: nat) -> nat
    decreases count,
{
    if count == 0 {
        0
    } else {
        let before = leaders_among(inflight, key, (count - 1) as nat);
        let now = role_of(after_claims(inflight, key, (count - 1) as nat), key);
        if now == FetchRole::Leader {
            before + 1
        } else {
            before
        }
    }
}

/// An image is fetched once: however many callers claim the fetch of one key
/// before the fetch has finished, at most one of them is the leader, and
/// none is if a fetch was under way before.
pub proof fn lemma_single_flight(inflight: Set<Seq<char>>, key: Seq<char>, count: nat)
    ensures
        leaders_among(inflight, key, count) <= 1,
        inflight.contains(key) ==> leaders_among(inflight, key, count) == 0,
        !inflight.contains(key) && count > 0 ==> leaders_among(inflight, key, count) == 1,
    decreases count,
{
    if count > 0 {
        lemma_single_flight(inflight, key, (count - 1) as nat);
    }
}

impl ImageCache {
    /// A cache with no fetch under way.
    pub fn new() -> (r: Self)
        ensures
            r@ == Set::<Seq<char>>::empty(),
    {
        let r = ImageCache { inflight: Vec::new() };
        assert(r@ =~= Set::<Seq<char>>::empty());
        r
    }

    fn position(&self, hash: &str) -> (r: Option<usize>)
        ensures
            match r {
                Some(i) => i < self.inflight@.len() && self.inflight@[i as int]@ == hash@,
                None => !self@.contains(hash@),
            },
    {
        let mut i: usize = 0;
        while i < self.inflight.len()
            invariant
                i <= self.inflight.len(),
                forall|k: int| 0 <= k < i ==> self.inflight@[k]@ != hash@,
            decreases self.inflight.len() - i,
        {
            if crate::text::str_eq(self.inflight[i].as_str(), hash) {
                return Some(i);
            }
            i += 1;
        }
        None
    }

    /// Claims the fetch of the image with the key `hash`: the first caller
    /// becomes the leader and is entered; every caller after it, until the
    /// leader has finished, is a waiter.
    pub fn claim(&mut self, hash: &str) -> (role: FetchRole)
        ensures
            role == role_of(old(self)@, hash@),
            final(self)@ == old(self)@.insert(hash@),
    {
        match self.position(hash) {
            Some(i) => {
                proof {
                    assert(self@.contains(hash@));
                    assert(self@ =~= self@.insert(hash@));
                }
                FetchRole::Waiter
            },
            None => {
                let ghost before = self@;
                let ghost items = self.inflight@;
                self.inflight.push(hash.to_owned());
                proof {
                    assert forall|k: Seq<char>| self@.contains(k) <==> before.insert(hash@).contains(
                        k,
                    ) by {
                        if before.contains(k) {
                            let i = choose|i: int| 0 <= i < items.len() && items[i]@ == k;
                            assert(self.inflight@[i]@ == k);
                        }
                        if k == hash@ {
                            assert(self.inflight@[items.len() as int]@ == k);
                        }
                    }
                    assert(self@ =~= before.insert(hash@));
                }
                FetchRole::Leader
            },
        }
    }

    /// Records that the fetch of the image with the key `hash` has finished
    /// and its outcome is published: the next caller that finds no fresh
    /// entry fetches anew.
    pub fn finish(&mut self, hash: &str)
        ensures
            final(self)@ == old(self)@.remove(hash@),
    {
        let ghost before = self@;
        let ghost items = self.inflight@;
        let mut kept: Vec<String> = Vec::new();
        let mut i: usize = 0;
        while i < self.inflight.len()
            invariant
                i <= self.inflight.len(),
                self.inflight@ == items,
                forall|k: int| 0 <= k < kept@.len() ==> (#[trigger] kept@[k])@ != hash@,
                forall|k: int|
                    0 <= k < kept@.len() ==> exists|j: int|
                        0 <= j < i && items[j]@ == #[trigger] kept@[k]@,
                forall|j: int|
                    0 <= j < i && (#[trigger] items[j])@ != hash@ ==> exists|k: int|
                        0 <= k < kept@.len() && kept@[k]@ == items[j]@,
            decreases self.inflight.len() - i,
        {
            if !crate::text::str_eq(self.inflight[i].as_str(), hash) {
                let ghost old_kept = kept@;
                kept.push(self.inflight[i].clone());
                proof {
                    assert forall|j: int|
                        0 <= j < i + 1 && (#[trigger] items[j])@ != hash@ implies exists|k: int|
                        0 <= k < kept@.len() && kept@[k]@ == items[j]@ by {
                        if j < i {
                            let k = choose|k: int|
                                0 <= k < old_kept.len() && old_kept[k]@ == items[j]@;
                            assert(kept@[k]@ == items[j]@);
                        } else {
                            assert(kept@[old_kept.len() as int]@ == items[j]@);
                        }
                    }
                }
            }
            i += 1;
        }
        self.inflight = kept;
        proof {
            assert forall|k: Seq<char>| self@.contains(k) <==> before.remove(hash@).contains(k) by {
                if self@.contains(k) {
                    let x = choose|x: int| 0 <= x < kept@.len() && kept@[x]@ == k;
                    let j = choose|j: int| 0 <= j < items.len() && items[j]@ == kept@[x]@;
                    assert(before.contains(k));
                }
                if before.remove(hash@).contains(k) {
                    let j = choose|j: int| 0 <= j < items.len() && items[j]@ == k;
                    let x = choose|x: int| 0 <= x < kept@.len() && kept@[x]@ == items[j]@;
                    assert(self.inflight@[x]@ == k);
                }
            }
            assert(self@ =~= before.remove(hash@));
        }
    }

    /// Decides what a caller does that asks for the image kept at
    /// `location`, given what it found on disk: a usable entry is served;
    /// otherwise the caller fetches, unless another caller already does.
    pub fn get_or_fetch(&mut self, location: &CacheLocation, data_path: &str, probe: &CacheProbe) -> (step:
        FetchStep)
        ensures
            match step {
                FetchStep::Hit(e) => is_hit(*probe) && e.path@ == data_path@ && Some(
                    e.content_type,
                ) == probe.content_type && final(self)@ == old(self)@,
                FetchStep::Wait => !is_hit(*probe) && old(self)@.contains(location.hash@)
                    && final(self)@ == old(self)@,
                FetchStep::Fetch => !is_hit(*probe) && !old(self)@.contains(location.hash@)
                    && final(self)@ == old(self)@.insert(location.hash@),
            },
    {
        match check_cache(data_path, probe) {
            Some(e) => FetchStep::Hit(e),
            None => {
                let ghost before = self@;
                match self.claim(location.hash.as_str()) {
                    FetchRole::Waiter => {
                        proof {
                            assert(before.insert(location.hash@) =~= before);
                        }
                        FetchStep::Wait
                    },
                    FetchRole::Leader => FetchStep::Fetch,
                }
            },
        }
    }
}

/// Where the image at `url` is kept, or why it is not fetched at all: only
/// addresses that begin with `https://` are.
pub fn locate(url: &str) -> (r: Result<CacheLocation, String>)
    ensures
        match r {
            Ok(loc) => {
                &&& "https://"@.is_prefix_of(url@)
                &&& loc.hash@ == cache_key(url@)
                &&& loc.data_name@ == cache_key(url@) + ".dat"@
                &&& loc.meta_name@ == cache_key(url@) + ".meta"@
            },
            Err(msg) => !"https://"@.is_prefix_of(url@) && msg@ == "Only HTTPS URLs are allowed"@,
        },
{
    let cs = chars_of(url);
    if !starts_with(&cs, "https://") {
        return Err("Only HTTPS URLs are allowed".to_owned());
    }
    let hash = hex_hash(url);
    let data_name = concat(hash.as_str(), ".dat");
    let meta_name = concat(hash.as_str(), ".meta");
    Ok(CacheLocation { hash, data_name, meta_name })
}

/// The content type of a response that names none.
pub const DEFAULT_CONTENT_TYPE: &'static str = "application/octet-stream";

/// The content type under which an image is kept: the one the response
/// names, if it names one that is text.
pub fn content_type_or_default(header: Option<&str>) -> (r: String)
    ensures
        r@ == match header {
            Some(h) => h@,
            None => DEFAULT_CONTENT_TYPE@,
        },
{
    match header {
        Some(h) => h.to_owned(),
        None => DEFAULT_CONTENT_TYPE.to_owned(),
    }
}

/// Refuses a response that announces more than twenty mebibytes.
pub fn check_declared_size(content_length: Option<u64>) -> (r: Result<(), String>)
    ensures
        match r {
            Ok(_) => content_length matches Some(n) ==> n <= MAX_FILE_SIZE,
            Err(msg) => content_length matches Some(n) && n > MAX_FILE_SIZE && msg@
                == "File too large"@,
        },
{
    match content_length {
        Some(n) => if n > MAX_FILE_SIZE {
            Err("File too large".to_owned())
        } else {
            Ok(())
        },
        None => Ok(()),
    }
}

/// Refuses a body of more than twenty mebibytes.
pub fn check_body_size(len: usize) -> (r: Result<(), String>)
    ensures
        match r {
            Ok(_) => len <= MAX_FILE_SIZE,
            Err(msg) => len > MAX_FILE_SIZE && msg@ == "File too large"@,
        },
{
    if len as u64 > MAX_FILE_SIZE {
        Err("File too large".to_owned())
    } else {
        Ok(())
    }
}

/// What a waiter returns: what the leader published, or a fault if the
/// leader went away without publishing.
pub fn waiter_outcome(published: Option<Result<CacheEntry, String>>) -> (r: Result<
    CacheEntry,
    String,
>)
    ensures
        match published {
            Some(outcome) => r == outcome,
            None => r matches Err(msg) && msg@ == "Inflight request dropped"@,
        },
{
    match published {
        Some(outcome) => outcome,
        None => Err("Inflight request dropped".to_owned()),
    }
}

/// A file of the cache that holds the bytes of an image.
#[derive(Debug, Clone, PartialEq, Eq)]
pub struct CachedFile {
    pub name: String,
    /// When the file was last written, in nanoseconds since the epoch.
    pub modified: i128,
    /// The size of the file in bytes.
    pub size: u64,
}

/// Whether a file name is that of the bytes of an image: it ends in `.dat`
/// and is more than that.
pub open spec fn is_data_name(name: Seq<char>) -> bool {
    ".dat"@.is_suffix_of(name) && name.len() > 4
}

/// Whether a file name is that of the bytes of an image.
pub fn is_data_file(name: &str) -> (r: bool)
    ensures
        r == is_data_name(name@),
{
    let cs = chars_of(name);
    crate::text::ends_with(&cs, ".dat") && cs.len() > 4
}

/// The name of the file with the content type that belongs to the file
/// `data_name` with the bytes.
pub fn meta_name_of(data_name: &str) -> (r: String)
    requires
        is_data_name(data_name@),
    ensures
        r@ == data_name@.take(data_name@.len() - 4) + ".meta"@,
{
    let cs = chars_of(data_name);
    let stem = crate::text::sub_chars(&cs, 0, cs.len() - 4);
    let stem_text = crate::text::string_from(&stem);
    concat(stem_text.as_str(), ".meta")
}

/// The bytes that the first `n` of the files take, those left out that are
/// evicted.
pub open spec fn remaining_upto(files: Seq<CachedFile>, evicted: Seq<usize>, n: nat) -> nat
    decreases n,
{
    if n == 0 {
        0
    } else {
        remaining_upto(files, evicted, (n - 1) as nat) + if evicted.contains((n - 1) as usize) {
            0nat
        } else {
            files[n - 1].size as nat
        }
    }
}

/// The bytes that the cache takes once the files at the positions `evicted`
/// are gone.
pub open spec fn remaining_size(files: Seq<CachedFile>, evicted: Seq<usize>) -> nat {
    remaining_upto(files, evicted, files.len())
}

/// Whether the file at `a` goes before the file at `b`: it is older, or as
/// old and listed earlier.
pub open spec fn goes_before(files: Seq<CachedFile>, a: usize, b: usize) -> bool {
    files[a as int].modified < files[b as int].modified || (files[a as int].modified
        == files[b as int].modified && a < b)
}

/// Whether `evicted` is what is evicted from a cache with the given files,
/// in this order: the oldest files, oldest first, as many as it takes to
/// bring the cache down to its limit and no more.
pub open spec fn is_eviction(files: Seq<CachedFile>, evicted: Seq<usize>) -> bool {
    &&& forall|i: int| 0 <= i < evicted.len() ==> (#[trigger] evicted[i]) < files.len()
    &&& forall|i: int, j: int|
        0 <= i < j < evicted.len() ==> #[trigger] goes_before(files, evicted[i], evicted[j])
    &&& forall|i: int, x: usize|
        0 <= i < evicted.len() && x < files.len() && !evicted.contains(x) ==> #[trigger] goes_before(
            files,
            evicted[i],
            x,
        )
    &&& remaining_size(files, evicted) <= MAX_CACHE_SIZE
    &&& evicted.len() > 0 ==> remaining_size(files, evicted.drop_last()) > MAX_CACHE_SIZE
}

proof fn lemma_remaining_bound(files: Seq<CachedFile>, evicted: Seq<usize>, n: nat)
    requires
        n <= files.len(),
    ensures
        remaining_upto(files, evicted, n) <= n * 0xffff_ffff_ffff_ffff,
    decreases n,
{
    if n > 0 {
        lemma_remaining_bound(files, evicted, (n - 1) as nat);
        assert((n - 1) * 0xffff_ffff_ffff_ffff + 0xffff_ffff_ffff_ffff == n * 0xffff_ffff_ffff_ffff)
            by (nonlinear_arith);
    }
}

proof fn lemma_evict_one(files: Seq<CachedFile>, evicted: Seq<usize>, m: usize, n: nat)
    requires
        n <= files.len(),
        files.len() <= usize::MAX,
        m < files.len(),
        !evicted.contains(m),
    ensures
        remaining_upto(files, evicted.push(m), n) + (if m < n {
            files[m as int].size as nat
        } else {
            0nat
        }) == remaining_upto(files, evicted, n),
    decreases n,
{
    if n > 0 {
        lemma_evict_one(files, evicted, m, (n - 1) as nat);
        let x = (n - 1) as usize;
        let more = evicted.push(m);
        if x == m {
            assert(more[evicted.len() as int] == m);
        } else {
            if evicted.contains(x) {
                let w = choose|w: int| 0 <= w < evicted.len() && evicted[w] == x;
                assert(more[w] == x);
            }
            if more.contains(x) {
                let w = choose|w: int| 0 <= w < more.len() && more[w] == x;
                assert(evicted[w] == x);
            }
        }
    }
}

proof fn lemma_all_evicted(files: Seq<CachedFile>, evicted: Seq<usize>, n: nat)
    requires
        n <= files.len(),
        files.len() <= usize::MAX,
        forall|x: usize| x < n ==> #[trigger] evicted.contains(x),
    ensures
        remaining_upto(files, evicted, n) == 0,
    decreases n,
{
    if n > 0 {
        lemma_all_evicted(files, evicted, (n - 1) as nat);
        assert(evicted.contains((n - 1) as usize));
    }
}

/// The number of positions below `n` that are not marked.
pub open spec fn unmarked(marks: Seq<bool>, n: nat) -> nat
    decreases n,
{
    if n == 0 {
        0
    } else {
        unmarked(marks, (n - 1) as nat) + if marks[n - 1] {
            0nat
        } else {
            1nat
        }
    }
}

proof fn lemma_mark_one(marks: Seq<bool>, m: int, n: nat)
    requires
        n <= marks.len(),
        0 <= m < marks.len(),
        !marks[m],
    ensures
        unmarked(marks.update(m, true), n) + (if m < n {
            1nat
        } else {
            0nat
        }) == unmarked(marks, n),
    decreases n,
{
    if n > 0 {
        lemma_mark_one(marks, m, (n - 1) as nat);
    }
}

fn total_bytes(files: &Vec<CachedFile>) -> (total: u128)
    ensures
        total == remaining_size(files@, Seq::<usize>::empty()),
{
    let mut total: u128 = 0;
    let mut i: usize = 0;
    let ghost none = Seq::<usize>::empty();
    while i < files.len()
        invariant
            i <= files.len(),
            none == Seq::<usize>::empty(),
            total == remaining_upto(files@, none, i as nat),
        decreases files.len() - i,
    {
        proof {
            lemma_remaining_bound(files@, none, i as nat);
            assert(i * 0xffff_ffff_ffff_ffff + 0xffff_ffff_ffff_ffff <= u128::MAX)
                by (nonlinear_arith)
                requires
                    i <= 0xffff_ffff_ffff_ffff,
            ;
            assert(!none.contains(i));
        }
        total = total + files[i].size as u128;
        i += 1;
    }
    total
}

fn oldest_unmarked(files: &Vec<CachedFile>, marks: &Vec<bool>) -> (r: Option<usize>)
    requires
        marks@.len() == files@.len(),
    ensures
        match r {
            Some(m) => m < files@.len() && !marks@[m as int] && forall|x: usize|
                x < files@.len() && !marks@[x as int] && x != m ==> #[trigger] goes_before(
                    files@,
                    m,
                    x,
                ),
            None => forall|x: int| 0 <= x < files@.len() ==> #[trigger] marks@[x],
        },
{
    let mut best: Option<usize> = None;
    let mut i: usize = 0;
    while i < files.len()
        invariant
            i <= files.len(),
            marks@.len() == files@.len(),
            match best {
                Some(m) => m < i && !marks@[m as int] && forall|x: usize|
                    x < i && !marks@[x as int] && x != m ==> #[trigger] goes_before(files@, m, x),
                None => forall|x: int| 0 <= x < i ==> #[trigger] marks@[x],
            },
        decreases files.len() - i,
    {
        if !marks[i] {
            match best {
                Some(m) => {
                    if files[i].modified < files[m].modified {
                        proof {
                            assert forall|x: usize|
                                x < i + 1 && !marks@[x as int] && x != i implies #[trigger] goes_before(
                                files@,
                                i,
                                x,
                            ) by {
                                if x != m {
                                    assert(goes_before(files@, m, x));
                                }
                            }
                        }
                        best = Some(i);
                    } else {
                        proof {
                            assert forall|x: usize|
                                x < i + 1 && !marks@[x as int] && x != m implies #[trigger] goes_before(
                                files@,
                                m,
                                x,
                            ) by {
                                if x < i {
                                    assert(goes_before(files@, m, x));
                                }
                            }
                        }
                    }
                },
                None => {
                    proof {
                        assert forall|x: usize|
                            x < i + 1 && !marks@[x as int] && x != i implies #[trigger] goes_before(
                            files@,
                            i,
                            x,
                        ) by {
                            assert(marks@[x as int]);
                        }
                    }
                    best = Some(i);
                },
            }
        } else {
            proof {
                match best {
                    Some(m) => {
                        assert forall|x: usize|
                            x < i + 1 && !marks@[x as int] && x != m implies #[trigger] goes_before(
                            files@,
                            m,
                            x,
                        ) by {
                            assert(goes_before(files@, m, x));
                        }
                    },
                    None => {},
                }
            }
        }
        i += 1;
    }
    best
}

/// Plans the eviction for a cache with the given files: the positions of
/// the files to remove, in the order in which they are removed. Nothing is
/// removed from a cache within its limit.
pub fn plan_eviction(files: &Vec<CachedFile>) -> (evicted: Vec<usize>)
    ensures
        is_eviction(files@, evicted@),
{
    let mut evicted: Vec<usize> = Vec::new();
    let mut remaining = total_bytes(files);
    let mut marks: Vec<bool> = Vec::new();
    let mut k: usize = 0;
    while k < files.len()
        invariant
            k <= files.len(),
            marks@.len() == k,
            forall|x: int| 0 <= x < k ==> !#[trigger] marks@[x],
        decreases files.len() - k,
    {
        marks.push(false);
        k += 1;
    }
    let limit = MAX_CACHE_SIZE as u128;
    let count = files.len();
    while remaining > limit
        invariant
            limit == MAX_CACHE_SIZE,
            count == files@.len(),
            marks@.len() == files@.len(),
            remaining == remaining_size(files@, evicted@),
            forall|x: usize| x < files@.len() ==> (marks@[x as int] <==> #[trigger] evicted@.contains(x)),
            forall|i: int| 0 <= i < evicted@.len() ==> (#[trigger] evicted@[i]) < files@.len(),
            forall|i: int, j: int|
                0 <= i < j < evicted@.len() ==> #[trigger] goes_before(
                    files@,
                    evicted@[i],
                    evicted@[j],
                ),
            forall|i: int, x: usize|
                0 <= i < evicted@.len() && x < files@.len() && !evicted@.contains(x)
                    ==> #[trigger] goes_before(files@, evicted@[i], x),
            evicted@.len() > 0 ==> remaining_size(files@, evicted@.drop_last()) > MAX_CACHE_SIZE,
        decreases unmarked(marks@, files@.len()),
    {
        let m = match oldest_unmarked(files, &marks) {
            Some(m) => m,
            None => {
                proof {
                    assert forall|x: usize| x < files@.len() implies #[trigger] evicted@.contains(
                        x,
                    ) by {
                        assert(marks@[x as int]);
                    }
                    lemma_all_evicted(files@, evicted@, files@.len());
                }
                return evicted;
            },
        };
        let ghost before = evicted@;
        let ghost old_marks = marks@;
        proof {
            assert(!before.contains(m));
            lemma_evict_one(files@, before, m, files@.len());
            lemma_mark_one(old_marks, m as int, files@.len());
        }
        marks.set(m, true);
        evicted.push(m);
        remaining = remaining - files[m].size as u128;
        proof {
            let after = evicted@;
            assert(after.drop_last() == before);
            assert forall|x: usize| x < files@.len() implies (marks@[x as int]
                <==> #[trigger] after.contains(x)) by {
                if x == m {
                    assert(after[before.len() as int] == m);
                } else {
                    assert(old_marks[x as int] <==> before.contains(x));
                    if before.contains(x) {
                        let w = choose|w: int| 0 <= w < before.len() && before[w] == x;
                        assert(after[w] == x);
                    }
                    if after.contains(x) {
                        let w = choose|w: int| 0 <= w < after.len() && after[w] == x;
                        assert(before[w] == x);
                    }
                }
            }
            assert forall|i: int, j: int| 0 <= i < j < after.len() implies #[trigger] goes_before(
                files@,
                after[i],
                after[j],
            ) by {
                if j == before.len() {
                    assert(goes_before(files@, before[i], m));
                } else {
                    assert(goes_before(files@, before[i], before[j]));
                }
            }
            assert forall|i: int, x: usize|
                0 <= i < after.len() && x < files@.len() && !after.contains(
                    x,
                ) implies #[trigger] goes_before(files@, after[i], x) by {
                assert(!marks@[x as int]);
                assert(x != m);
                assert(!old_marks[x as int]);
                assert(!before.contains(x));
                if i < before.len() {
                    assert(goes_before(files@, before[i], x));
                } else {
                    assert(goes_before(files@, m, x));
                }
            }
        }
    }
    evicted
}

} // verus!
