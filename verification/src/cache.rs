//! The render cache: rendered images, each named by a key made from the program that it
//! was rendered from, and the jobs that a run has to start for those that are missing.

use vstd::prelude::*;
use vstd::string::{StrSliceExecFns, StringExecFns};
use vstd::utf8::is_ascii_chars;
use crate::highlight::Mode;
use crate::text::same_text;

verus! {

/// The number of hexadecimal digits of the digest that make up a key.
pub const KEY_LENGTH: usize = 5;

/// The MD5 digest of the UTF-8 bytes of `data`, as 32 lower-case hexadecimal digits.
pub uninterp spec fn md5_hex(data: Seq<char>) -> Seq<char>;

/// A hexadecimal digit in lower case.
pub open spec fn is_lower_hex(c: char) -> bool {
    ('0' <= c <= '9') || ('a' <= c <= 'f')
}

/// `md5::compute`, and the digest formatted with `{:x}`. Trusted: the result is the digest
/// of these bytes, written as 32 digits, each one of `0` to `9` or `a` to `f`.
#[verifier::external_body]
fn digest_hex(data: &str) -> (hex: String)
    ensures
        hex@ == md5_hex(data@),
        hex@.len() == 32,
        forall|i: int| 0 <= i < hex@.len() ==> is_lower_hex(#[trigger] hex@[i]),
{
    format!("{:x}", md5::compute(data))
}

/// The cache key of a program: the first digits of its digest.
pub open spec fn cache_key_of(source: Seq<char>) -> Seq<char> {
    md5_hex(source).subrange(0, KEY_LENGTH as int)
}

/// The cache key for `source`. It is made from the bytes of the source alone.
pub fn cache_key(source: &str) -> (key: String)
    ensures
        key@ == cache_key_of(source@),
        key@.len() == KEY_LENGTH,
        forall|i: int| 0 <= i < key@.len() ==> is_lower_hex(#[trigger] key@[i]),
{
    let hex = digest_hex(source);
    assert(is_ascii_chars(hex@)) by {
        assert forall|i: int| 0 <= i < hex@.len() implies '\0' <= #[trigger] hex@[i]
            <= '\u{7f}' by {
            assert(is_lower_hex(hex@[i]));
        }
    }
    String::from_str(hex.as_str().substring_ascii(0, KEY_LENGTH))
}

/// Equal sources have equal keys.
pub proof fn cache_key_deterministic(left: Seq<char>, right: Seq<char>)
    requires
        left == right,
    ensures
        cache_key_of(left) == cache_key_of(right),
{
}

/// The name of the file that holds the image for a key.
pub open spec fn artifact_name_of(key: Seq<char>) -> Seq<char> {
    key + ".svg"@
}

/// The name of the file that holds the image for `key`.
pub fn artifact_name(key: &str) -> (name: String)
    ensures
        name@ == artifact_name_of(key@),
{
    String::from_str(key).concat(".svg")
}

/// The key of the image that the file `name` holds: what stands before `.svg`. A file with
/// another name holds no image.
pub open spec fn key_of_file(name: Seq<char>) -> Option<Seq<char>> {
    if name.len() >= 4 && name.subrange(name.len() - 4, name.len() as int) == ".svg"@ {
        Some(name.subrange(0, name.len() - 4))
    } else {
        None
    }
}

/// The key of the image that the file `name` holds, where it holds one.
pub fn cached_key(name: &str) -> (key: Option<String>)
    ensures
        key.deep_view() == key_of_file(name@),
{
    let len = name.unicode_len();
    if len < 4 {
        return None;
    }
    if same_text(name.substring_char(len - 4, len), ".svg") {
        Some(String::from_str(name.substring_char(0, len - 4)))
    } else {
        None
    }
}

/// The file that holds the image for a key is read back as that key.
pub proof fn lemma_key_of_artifact(key: Seq<char>)
    ensures
        key_of_file(artifact_name_of(key)) == Some(key),
{
    reveal_strlit(".svg");
    let name = artifact_name_of(key);
    assert(name.subrange(name.len() - 4, name.len() as int) =~= ".svg"@);
    assert(name.subrange(0, name.len() - 4) =~= key);
}

/// The keys of the images among the first `n` of the files `names`, in the order of the
/// files.
pub open spec fn keys_of_files(names: Seq<Seq<char>>, n: nat) -> Seq<Seq<char>>
    decreases n,
{
    if n == 0 || n > names.len() {
        Seq::empty()
    } else {
        match key_of_file(names[n - 1]) {
            Some(key) => keys_of_files(names, (n - 1) as nat).push(key),
            None => keys_of_files(names, (n - 1) as nat),
        }
    }
}

/// The path of the file `name` in the directory `dir`.
pub open spec fn path_in(dir: Seq<char>, name: Seq<char>) -> Seq<char> {
    dir + "/"@ + name
}

/// The path at which the rendering engine is to write the image for `key`, in the cache
/// directory `dir`.
pub fn output_path_for(dir: &str, key: &str) -> (path: String)
    ensures
        path@ == path_in(dir@, artifact_name_of(key@)),
{
    String::from_str(dir).concat("/").concat(artifact_name(key).as_str())
}

/// The Markdown that shows the image `name` served under `url`.
pub open spec fn image_reference_of(url: Seq<char>, name: Seq<char>) -> Seq<char> {
    "![]("@ + url + "/"@ + name + ")"@
}

/// The Markdown that shows the image `name` served under `url`.
pub fn image_reference(url: &str, name: &str) -> (markdown: String)
    ensures
        markdown@ == image_reference_of(url@, name@),
{
    String::from_str("![](").concat(url).concat("/").concat(name).concat(")")
}

/// One run of the rendering engine that is to be made: the program to feed it, and where
/// its image goes.
#[derive(Debug, Clone, PartialEq, Eq)]
pub struct RenderJob {
    /// The program that the engine reads from standard input.
    pub source: String,
    /// How the block that asked for the image was read.
    pub mode: Mode,
    /// The cache key of the program.
    pub key: String,
    /// The file that the engine writes.
    pub output_path: String,
}

/// A [`RenderJob`] with its strings as sequences of characters.
pub struct RenderJobView {
    pub source: Seq<char>,
    pub mode: Mode,
    pub key: Seq<char>,
    pub output_path: Seq<char>,
}

impl DeepView for RenderJob {
    type V = RenderJobView;

    open spec fn deep_view(&self) -> RenderJobView {
        RenderJobView {
            source: self.source@,
            mode: self.mode,
            key: self.key@,
            output_path: self.output_path@,
        }
    }
}

/// The state of the cache in the course of a run: the keys whose image is there or under
/// way, and the jobs that the run has to start.
pub struct RenderCache {
    keys: Vec<String>,
    jobs: Vec<RenderJob>,
}

/// A [`RenderCache`] as values of the model.
pub struct RenderCacheView {
    /// The keys whose image is there or under way.
    pub keys: Seq<Seq<char>>,
    /// The jobs to start, in the order in which they were asked for.
    pub jobs: Seq<RenderJobView>,
}

impl View for RenderCache {
    type V = RenderCacheView;

    closed spec fn view(&self) -> RenderCacheView {
        RenderCacheView { keys: self.keys.deep_view(), jobs: self.jobs.deep_view() }
    }
}

/// The jobs of a cache are told apart by their keys: the cache holds the key of every job,
/// and no two jobs have the same key.
pub open spec fn jobs_distinct(cache: RenderCacheView) -> bool {
    &&& forall|i: int| 0 <= i < cache.jobs.len() ==> cache.keys.contains(#[trigger] cache.jobs[i].key)
    &&& forall|i: int, j: int|
        0 <= i < j < cache.jobs.len() ==> #[trigger] cache.jobs[i].key != #[trigger] cache.jobs[j].key
}

/// Asking for a job keeps the jobs apart.
pub proof fn lemma_requested_distinct(cache: RenderCacheView, job: RenderJobView)
    requires
        jobs_distinct(cache),
    ensures
        jobs_distinct(requested(cache, job)),
{
    let after = requested(cache, job);
    if !cache.keys.contains(job.key) {
        assert forall|i: int| 0 <= i < after.jobs.len() implies after.keys.contains(
            #[trigger] after.jobs[i].key,
        ) by {
            if i < cache.jobs.len() {
                let at = choose|at: int| 0 <= at < cache.keys.len() && cache.keys[at] == cache.jobs[i].key;
                assert(after.keys[at] == after.jobs[i].key);
            } else {
                assert(after.keys[cache.keys.len() as int] == job.key);
            }
        }
    }
}

/// A cache has grown from another: the keys and the jobs that the other held are still
/// there, in their places, and the jobs are still told apart by their keys where they were
/// before.
pub open spec fn grown(before: RenderCacheView, after: RenderCacheView) -> bool {
    &&& before.keys.is_prefix_of(after.keys)
    &&& before.jobs.is_prefix_of(after.jobs)
    &&& jobs_distinct(before) ==> jobs_distinct(after)
}

/// Growth goes on: what has grown from a cache that has grown from a first one has grown
/// from the first.
pub proof fn lemma_grown_chain(first: RenderCacheView, second: RenderCacheView, third: RenderCacheView)
    requires
        grown(first, second),
        grown(second, third),
    ensures
        grown(first, third),
{
}

/// Whether a cache holds every one of `keys`.
pub open spec fn holds_all(cache: RenderCacheView, keys: Seq<Seq<char>>) -> bool {
    forall|key: Seq<char>| keys.contains(key) ==> cache.keys.contains(key)
}

/// A cache that holds the keys of a cache that has grown holds the keys that it has grown
/// from.
pub proof fn lemma_holds_earlier(cache: RenderCacheView, before: RenderCacheView, after: RenderCacheView)
    requires
        grown(before, after),
        holds_all(cache, after.keys),
    ensures
        holds_all(cache, before.keys),
{
    assert forall|key: Seq<char>| before.keys.contains(key) implies cache.keys.contains(key) by {
        let at = choose|at: int| 0 <= at < before.keys.len() && before.keys[at] == key;
        assert(after.keys.subrange(0, before.keys.len() as int)[at] == key);
        assert(after.keys[at] == key);
        assert(after.keys.contains(key));
    }
}

/// A job that is asked of a cache which holds its key changes nothing; and whatever cache
/// a job is asked of holds its key afterwards.
pub proof fn lemma_requested_held(cache: RenderCacheView, other: RenderCacheView, job: RenderJobView)
    requires
        holds_all(cache, requested(other, job).keys),
    ensures
        requested(cache, job) == cache,
{
    let after = requested(other, job);
    if other.keys.contains(job.key) {
        assert(after.keys.contains(job.key));
    } else {
        assert(after.keys[other.keys.len() as int] == job.key);
        assert(after.keys.contains(job.key));
    }
}

/// Asking for a job takes nothing from the cache.
pub proof fn lemma_requested_grows(cache: RenderCacheView, job: RenderJobView)
    ensures
        grown(cache, requested(cache, job)),
{
    if jobs_distinct(cache) {
        lemma_requested_distinct(cache, job);
    }
}

/// The cache after a job was asked for: a job whose key the cache holds changes nothing;
/// any other is added to the jobs, and its key to the keys.
pub open spec fn requested(cache: RenderCacheView, job: RenderJobView) -> RenderCacheView {
    if cache.keys.contains(job.key) {
        cache
    } else {
        RenderCacheView { keys: cache.keys.push(job.key), jobs: cache.jobs.push(job) }
    }
}

/// The cache at the start of a run, where `cached` are the keys whose image is on disk.
pub open spec fn fresh_cache(cached: Seq<Seq<char>>) -> RenderCacheView {
    RenderCacheView { keys: cached, jobs: Seq::empty() }
}

impl RenderCache {
    #[verifier::type_invariant]
    spec fn distinct(&self) -> bool {
        jobs_distinct(self@)
    }

    /// The cache at the start of a run: `keys` are those whose image is on disk; no job
    /// has been asked for.
    pub fn new(keys: Vec<String>) -> (cache: RenderCache)
        ensures
            cache@ == fresh_cache(keys.deep_view()),
    {
        let cache = RenderCache { keys, jobs: Vec::new() };
        assert(cache.jobs.deep_view() =~= Seq::empty());
        cache
    }

    /// The cache at the start of a run, where `names` are the files in the directory of the
    /// published images.
    pub fn from_files(names: &Vec<String>) -> (cache: RenderCache)
        ensures
            cache@ == fresh_cache(keys_of_files(names.deep_view(), names.len() as nat)),
    {
        let mut keys: Vec<String> = Vec::new();
        let mut i: usize = 0;
        assert(keys.deep_view() =~= Seq::empty());
        while i < names.len()
            invariant
                i <= names.len(),
                keys.deep_view() == keys_of_files(names.deep_view(), i as nat),
            decreases names.len() - i,
        {
            let ghost before = keys.deep_view();
            assert(names.deep_view()[i as int] == names[i as int]@);
            match cached_key(names[i].as_str()) {
                Some(key) => {
                    keys.push(key);
                    assert(keys.deep_view() =~= before.push(key@));
                },
                None => {},
            }
            i = i + 1;
        }
        RenderCache::new(keys)
    }

    /// Whether the image for `key` is there or under way.
    pub fn has_cached(&self, key: &str) -> (hit: bool)
        ensures
            hit == self@.keys.contains(key@),
    {
        let mut i: usize = 0;
        while i < self.keys.len()
            invariant
                i <= self.keys.len(),
                forall|k: int| 0 <= k < i ==> self.keys.deep_view()[k] != key@,
            decreases self.keys.len() - i,
        {
            if same_text(self.keys[i].as_str(), key) {
                assert(self.keys.deep_view()[i as int] == key@);
                return true;
            }
            i = i + 1;
        }
        false
    }

    /// Asks for the image of `job`. Where the cache holds the key the job is dropped, so
    /// that no two jobs of a run have the same key.
    pub fn request(&mut self, job: RenderJob)
        ensures
            final(self)@ == requested(old(self)@, job.deep_view()),
    {
        proof {
            use_type_invariant(&*self);
            lemma_requested_distinct(self@, job.deep_view());
        }
        if !self.has_cached(job.key.as_str()) {
            let ghost before = self@;
            let key = job.key.clone();
            // The jobs leave the cache first and come back last, so that the cache is
            // never seen with a job whose key it lacks.
            let mut keys: Vec<String> = Vec::new();
            let mut jobs: Vec<RenderJob> = Vec::new();
            assert(jobs.deep_view() =~= Seq::empty());
            std::mem::swap(&mut jobs, &mut self.jobs);
            std::mem::swap(&mut keys, &mut self.keys);
            keys.push(key);
            jobs.push(job);
            assert(keys.deep_view() =~= before.keys.push(job.key@));
            assert(jobs.deep_view() =~= before.jobs.push(job.deep_view()));
            std::mem::swap(&mut keys, &mut self.keys);
            std::mem::swap(&mut jobs, &mut self.jobs);
        }
    }

    /// The jobs that were asked for and have to be started. No two of them have the same
    /// key.
    pub fn jobs(&self) -> (jobs: &Vec<RenderJob>)
        ensures
            jobs.deep_view() == self@.jobs,
            jobs_distinct(self@),
    {
        proof {
            use_type_invariant(self);
        }
        &self.jobs
    }
}

} // verus!
