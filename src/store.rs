//! The file-backed store: where each key's record file lies, what saving
//! writes there and what reading makes of what is found.
use vstd::prelude::*;
use vstd::string::StringExecFns;
use crate::error::CacheError;
use crate::record::{CachedDockerImage, ImageRecord, decode_record, decoded_as, record_text};

verus! {

/// A cache of built images kept as one JSON file per key in a root
/// directory.
pub struct DockerCache {
    cache_location: String,
}

impl View for DockerCache {
    type V = Seq<char>;

    /// The cache root.
    closed spec fn view(&self) -> Seq<char> {
        self.cache_location@
    }
}

/// The suffix of every record file.
pub open spec fn record_suffix() -> Seq<char> {
    seq!['.', 'j', 's', 'o', 'n']
}

/// The path of the record file of `key` under the cache root `root`: the
/// root joined with the key and the record suffix, with one separator
/// between them unless the root is empty or already ends in one.
pub open spec fn cache_path(root: Seq<char>, key: Seq<char>) -> Seq<char> {
    let file = key + record_suffix();
    if root.len() == 0 {
        file
    } else if root.last() == '/' {
        root + file
    } else {
        root + seq!['/'] + file
    }
}

/// What precedes the key in every record file path under `root`.
pub open spec fn path_prefix(root: Seq<char>) -> Seq<char> {
    if root.len() == 0 || root.last() == '/' {
        root
    } else {
        root + seq!['/']
    }
}

/// The record files on disk, as a map from path to contents.
pub type Files = Map<Seq<char>, Seq<char>>;

/// What the record file of `key` holds in `files`, if it exists.
pub open spec fn stored_text(files: Files, root: Seq<char>, key: Seq<char>) -> Option<Seq<char>> {
    let p = cache_path(root, key);
    if files.contains_key(p) {
        Some(files[p])
    } else {
        None
    }
}

/// The record files after `v` is saved under `key`: its file holds the
/// record's text in full, whatever it held before.
pub open spec fn files_after_save(files: Files, root: Seq<char>, key: Seq<char>, v: ImageRecord) -> Files {
    files.insert(cache_path(root, key), record_text(v))
}

/// What reading the record file contents `contents` gives: a miss where
/// there is no file, and the decoded record otherwise.
pub open spec fn read_outcome(contents: Option<Seq<char>>) -> Result<Option<ImageRecord>, CacheError> {
    match contents {
        None => Ok(None),
        Some(t) => match decode_record(t) {
            Ok(v) => Ok(Some(v)),
            Err(e) => Err(e),
        },
    }
}

/// What reading the record of `key` from `files` gives.
pub open spec fn lookup(files: Files, root: Seq<char>, key: Seq<char>) -> Result<Option<ImageRecord>, CacheError> {
    read_outcome(stored_text(files, root, key))
}

/// The record files after each save of `saves`, a key and a record, in
/// order.
pub open spec fn files_after_saves(files: Files, root: Seq<char>, saves: Seq<(Seq<char>, ImageRecord)>) -> Files
    decreases saves.len(),
{
    if saves.len() == 0 {
        files
    } else {
        files_after_saves(
            files_after_save(files, root, saves[0].0, saves[0].1),
            root,
            saves.drop_first(),
        )
    }
}

/// Every record file path under a root is the root's path prefix, the key
/// and the record suffix.
pub proof fn lemma_cache_path_shape(root: Seq<char>, key: Seq<char>)
    ensures
        cache_path(root, key) == path_prefix(root) + key + record_suffix(),
{
    assert(cache_path(root, key) =~= path_prefix(root) + key + record_suffix());
}

/// Distinct keys have distinct record files: the store neither hashes nor
/// escapes keys, and no two keys share a location.
pub proof fn lemma_distinct_keys_distinct_paths(root: Seq<char>, k1: Seq<char>, k2: Seq<char>)
    requires
        k1 != k2,
    ensures
        cache_path(root, k1) != cache_path(root, k2),
{
    lemma_cache_path_shape(root, k1);
    lemma_cache_path_shape(root, k2);
    let pre = path_prefix(root);
    if cache_path(root, k1) == cache_path(root, k2) {
        let p = cache_path(root, k1);
        assert((pre + k1 + record_suffix()).len() == pre.len() + k1.len() + 5);
        assert((pre + k2 + record_suffix()).len() == pre.len() + k2.len() + 5);
        assert(k1.len() == k2.len());
        assert(k1 =~= p.subrange(pre.len() as int, (pre.len() + k1.len()) as int));
        assert(k2 =~= p.subrange(pre.len() as int, (pre.len() + k2.len()) as int));
    }
}

/// Saving a record stores exactly that record's text in the key's file.
pub proof fn lemma_save_stores_record(files: Files, root: Seq<char>, key: Seq<char>, v: ImageRecord)
    ensures
        stored_text(files_after_save(files, root, key, v), root, key) == Some(record_text(v)),
{
}

/// Of two saves under one key, the later one wins: the key's file holds the
/// second record's text alone, nothing of the first merged in.
pub proof fn lemma_last_save_wins(
    files: Files,
    root: Seq<char>,
    key: Seq<char>,
    v1: ImageRecord,
    v2: ImageRecord,
)
    ensures
        stored_text(
            files_after_save(files_after_save(files, root, key, v1), root, key, v2),
            root,
            key,
        ) == Some(record_text(v2)),
{
}

/// Saving under one key leaves the record file of every other key as it was.
pub proof fn lemma_save_keeps_other_keys(
    files: Files,
    root: Seq<char>,
    key: Seq<char>,
    other: Seq<char>,
    v: ImageRecord,
)
    requires
        key != other,
    ensures
        stored_text(files_after_save(files, root, key, v), root, other) == stored_text(files, root, other),
{
    lemma_distinct_keys_distinct_paths(root, key, other);
}

/// A key that no save names reads as a miss, never as an error, whatever
/// was saved under other keys.
pub proof fn lemma_never_saved_is_miss(
    files: Files,
    root: Seq<char>,
    key: Seq<char>,
    saves: Seq<(Seq<char>, ImageRecord)>,
)
    requires
        stored_text(files, root, key) is None,
        forall|i: int| 0 <= i < saves.len() ==> (#[trigger] saves[i]).0 != key,
    ensures
        lookup(files_after_saves(files, root, saves), root, key) == Ok::<Option<ImageRecord>, CacheError>(None),
    decreases saves.len(),
{
    if saves.len() > 0 {
        let f1 = files_after_save(files, root, saves[0].0, saves[0].1);
        lemma_save_keeps_other_keys(files, root, saves[0].0, key, saves[0].1);
        assert forall|i: int| 0 <= i < saves.drop_first().len() implies (#[trigger] saves.drop_first()[i]).0 != key by {
            assert(saves.drop_first()[i] == saves[i + 1]);
        }
        lemma_never_saved_is_miss(f1, root, key, saves.drop_first());
    }
}

impl DockerCache {
    /// A cache rooted at `cache_location`. The directory itself is made by
    /// the caller.
    pub fn new(cache_location: &str) -> (r: DockerCache)
        ensures
            r@ == cache_location@,
    {
        DockerCache { cache_location: String::from_str(cache_location) }
    }

    /// The path of the record file of `cache_key`.
    pub fn get_cache_path(&self, cache_key: &str) -> (r: String)
        ensures
            r@ == cache_path(self@, cache_key@),
    {
        proof {
            reveal_strlit("/");
            reveal_strlit(".json");
        }
        let root = self.cache_location.as_str();
        let n = root.unicode_len();
        let mut out = String::from_str(root);
        if n > 0 && root.get_char(n - 1) != '/' {
            out.append("/");
        }
        out.append(cache_key);
        out.append(".json");
        assert(out@ =~= cache_path(self@, cache_key@));
        out
    }

    /// Where saving `value` under `cache_key` writes, and what: the path of
    /// the key's record file and the record's text, which replaces whatever
    /// the file held.
    pub fn record_file_for(&self, cache_key: &str, value: &CachedDockerImage) -> (r: Result<
        (String, String),
        CacheError,
    >)
        ensures
            r matches Ok((p, t)) && p@ == cache_path(self@, cache_key@) && t@ == record_text(
                value@,
            ),
    {
        let path = self.get_cache_path(cache_key);
        let text = value.to_record_text()?;
        Ok((path, text))
    }

    /// What reading the record of a key gives, from the contents of its
    /// record file, `None` where the file does not exist: a miss, never an
    /// error, where there is no file; the record where the file holds one;
    /// `Malformed` or `MissingField` otherwise. A file written by saving a
    /// record reads back as that record where both its fields are non-empty,
    /// and as `MissingField` where one is empty.
    pub fn value_from_contents(contents: Option<&str>) -> (r: Result<Option<CachedDockerImage>, CacheError>)
        ensures
            contents is None ==> r matches Ok(None),
            contents matches Some(t) ==> match (r, read_outcome(Some(t@))) {
                (Ok(Some(x)), Ok(Some(y))) => x@ == y,
                (Err(a), Err(b)) => a == b,
                _ => false,
            },
            forall|v: ImageRecord|
                contents matches Some(t) && t@ == record_text(v) ==> if v.is_valid() {
                    r matches Ok(Some(x)) && x@ == v
                } else {
                    r == Err::<Option<CachedDockerImage>, CacheError>(CacheError::MissingField)
                },
    {
        match contents {
            None => Ok(None),
            Some(t) => {
                let d = CachedDockerImage::from_record_text(t);
                assert(decoded_as(d, decode_record(t@)));
                match d {
                    Ok(v) => Ok(Some(v)),
                    Err(e) => Err(e),
                }
            },
        }
    }
}

} // verus!
