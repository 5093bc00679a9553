use vstd::prelude::*;
use crate::wrappers::{is_uuid_text, new_uuid};
use crate::types::{subdir_of, AudioType};

verus! {

/// `base` joined with the relative path `name`, with one separator
/// between them.
pub open spec fn path_join(base: Seq<char>, name: Seq<char>) -> Seq<char> {
    if base.len() == 0 {
        name
    } else if base.last() == '/' {
        base + name
    } else {
        base + seq!['/'] + name
    }
}

/// The name of a cached file: its identifier, a dot, and the extension.
pub open spec fn file_name_of(id: Seq<char>, extension: Seq<char>) -> Seq<char> {
    id + seq!['.'] + extension
}

/// The directory of a category under the cache root.
pub open spec fn category_dir_of(root: Seq<char>, t: AudioType) -> Seq<char> {
    path_join(root, subdir_of(t))
}

/// The sum of the sizes that are known; unknown sizes count as zero.
pub open spec fn known_total(sizes: Seq<Option<u64>>) -> nat
    decreases sizes.len(),
{
    if sizes.len() == 0 {
        0
    } else {
        known_total(sizes.drop_last()) + match sizes.last() {
            Some(n) => n as nat,
            None => 0,
        }
    }
}

/// The entries of a directory listing that are regular files, in order.
pub open spec fn regular_files(entries: Seq<(String, bool)>) -> Seq<String>
    decreases entries.len(),
{
    if entries.len() == 0 {
        Seq::empty()
    } else {
        let rest = regular_files(entries.drop_last());
        if entries.last().1 {
            rest.push(entries.last().0)
        } else {
            rest
        }
    }
}

/// Joins `base` and the relative path `name`.
pub fn join_path(base: &str, name: &str) -> (r: String)
    ensures
        r@ == path_join(base@, name@),
{
    let n = base.unicode_len();
    if n == 0 {
        return name.to_string();
    }
    let last = base.get_char(n - 1);
    let mut r = base.to_string();
    if last != '/' {
        r.append("/");
        proof {
            reveal_strlit("/");
        }
    }
    r.append(name);
    proof {
        assert(r@ =~= path_join(base@, name@));
    }
    r
}

/// The category-partitioned file cache under a root directory.
pub struct AudioCache {
    cache_dir: String,
}

impl AudioCache {
    /// The cache rooted at `cache_dir`.
    pub fn new(cache_dir: String) -> (r: AudioCache)
        ensures
            r.root() == cache_dir@,
    {
        AudioCache { cache_dir }
    }

    pub closed spec fn root(&self) -> Seq<char> {
        self.cache_dir@
    }

    /// The cache's root directory.
    pub fn cache_dir(&self) -> (r: &str)
        ensures
            r@ == self.root(),
    {
        self.cache_dir.as_str()
    }

    /// The directory that holds the files of a category.
    pub fn category_dir(&self, audio_type: AudioType) -> (r: String)
        ensures
            r@ == category_dir_of(self.root(), audio_type),
    {
        let sub = audio_type.subdir();
        join_path(self.cache_dir.as_str(), sub.as_str())
    }

    /// Where the file with this identifier and extension lives.
    pub fn file_path(&self, audio_type: AudioType, id: &str, extension: &str) -> (r: String)
        ensures
            r@ == path_join(category_dir_of(self.root(), audio_type), file_name_of(id@, extension@)),
    {
        let dir = self.category_dir(audio_type);
        let mut name = id.to_string();
        name.append(".");
        name.append(extension);
        proof {
            reveal_strlit(".");
            assert(name@ =~= file_name_of(id@, extension@));
        }
        join_path(dir.as_str(), name.as_str())
    }

    /// A fresh path for a new file of a category: a random UUID in
    /// hyphenated lowercase form, a dot and the extension, in the
    /// category's directory.
    pub fn new_file_path(&self, audio_type: AudioType, extension: &str) -> (r: String)
        ensures
            exists|id: Seq<char>|
                is_uuid_text(id) && r@ == path_join(
                    category_dir_of(self.root(), audio_type),
                    file_name_of(id, extension@),
                ),
    {
        let id = new_uuid();
        self.file_path(audio_type, id.as_str(), extension)
    }
}

/// The regular files of a directory listing, given as (path, is a regular
/// file) pairs; other entries are left out.
pub fn select_files(entries: &Vec<(String, bool)>) -> (r: Vec<String>)
    ensures
        r@ == regular_files(entries@),
{
    let mut r: Vec<String> = Vec::new();
    let mut i: usize = 0;
    assert(entries@.take(0) =~= Seq::<(String, bool)>::empty());
    while i < entries.len()
        invariant
            i <= entries@.len(),
            r@ == regular_files(entries@.take(i as int)),
        decreases entries@.len() - i,
    {
        assert(entries@.take(i + 1).drop_last() =~= entries@.take(i as int));
        assert(entries@.take(i + 1).last() == entries@[i as int]);
        if entries[i].1 {
            r.push(entries[i].0.clone());
        }
        i = i + 1;
    }
    assert(entries@.take(i as int) =~= entries@);
    r
}

/// The total size of the cached files, given the size of each listed file
/// or `None` for one that vanished before it could be measured; `None` if
/// the total does not fit in 64 bits.
pub fn total_size(sizes: &Vec<Option<u64>>) -> (r: Option<u64>)
    ensures
        r == (if known_total(sizes@) <= u64::MAX {
            Some(known_total(sizes@) as u64)
        } else {
            None
        }),
{
    let mut total: u64 = 0;
    let mut i: usize = 0;
    assert(sizes@.take(0) =~= Seq::<Option<u64>>::empty());
    while i < sizes.len()
        invariant
            i <= sizes@.len(),
            total == known_total(sizes@.take(i as int)),
        decreases sizes@.len() - i,
    {
        assert(sizes@.take(i + 1).drop_last() =~= sizes@.take(i as int));
        assert(sizes@.take(i + 1).last() == sizes@[i as int]);
        if let Some(n) = sizes[i] {
            if total > u64::MAX - n {
                proof {
                    lemma_known_total_grows(sizes@, i as int + 1);
                    assert(sizes@.take(sizes@.len() as int) =~= sizes@);
                }
                return None;
            }
            total = total + n;
        }
        i = i + 1;
    }
    assert(sizes@.take(i as int) =~= sizes@);
    Some(total)
}

/// A longer listing never has a smaller known total.
pub proof fn lemma_known_total_grows(sizes: Seq<Option<u64>>, k: int)
    requires
        0 <= k <= sizes.len(),
    ensures
        known_total(sizes.take(k)) <= known_total(sizes),
    decreases sizes.len() - k,
{
    if k < sizes.len() {
        lemma_known_total_grows(sizes, k + 1);
        assert(sizes.take(k + 1).drop_last() =~= sizes.take(k));
    } else {
        assert(sizes.take(k) =~= sizes);
    }
}

/// The known total of two listings one after the other.
pub proof fn lemma_known_total_concat(a: Seq<Option<u64>>, b: Seq<Option<u64>>)
    ensures
        known_total(a + b) == known_total(a) + known_total(b),
    decreases b.len(),
{
    if b.len() > 0 {
        lemma_known_total_concat(a, b.drop_last());
        assert((a + b).drop_last() =~= a + b.drop_last());
        assert((a + b).last() == b.last());
    } else {
        assert(a + b =~= a);
    }
}

/// Saving one file of `n` bytes adds exactly `n` to the total size,
/// wherever the new file stands in the listing.
pub proof fn lemma_total_after_save(sizes: Seq<Option<u64>>, k: int, n: u64)
    requires
        0 <= k <= sizes.len(),
    ensures
        known_total(sizes.insert(k, Some(n))) == known_total(sizes) + n,
{
    let a = sizes.take(k);
    let b = sizes.skip(k);
    let one = seq![Some(n)];
    assert(sizes.insert(k, Some(n)) =~= a + (one + b));
    assert(sizes =~= a + b);
    assert(known_total(one) == n as nat) by {
        assert(one.drop_last() =~= Seq::<Option<u64>>::empty());
        assert(known_total(Seq::<Option<u64>>::empty()) == 0);
        assert(one.last() == Some(n));
        assert(one.len() == 1);
    }
    lemma_known_total_concat(a, one + b);
    lemma_known_total_concat(one, b);
    lemma_known_total_concat(a, b);
}

/// How many entries of a listing are regular files at path `p`.
pub open spec fn listed_count(entries: Seq<(String, bool)>, p: Seq<char>) -> nat
    decreases entries.len(),
{
    if entries.len() == 0 {
        0
    } else {
        listed_count(entries.drop_last(), p) + if entries.last().1 && entries.last().0@ == p {
            1nat
        } else {
            0nat
        }
    }
}

/// How many times path `p` stands in a list of paths.
pub open spec fn occurrences(files: Seq<String>, p: Seq<char>) -> nat
    decreases files.len(),
{
    if files.len() == 0 {
        0
    } else {
        occurrences(files.drop_last(), p) + if files.last()@ == p {
            1nat
        } else {
            0nat
        }
    }
}

/// The regular files of a listing hold a path as often as the listing
/// holds it as a regular file.
pub proof fn lemma_regular_files_count(entries: Seq<(String, bool)>, p: Seq<char>)
    ensures
        occurrences(regular_files(entries), p) == listed_count(entries, p),
    decreases entries.len(),
{
    if entries.len() > 0 {
        let d = entries.drop_last();
        lemma_regular_files_count(d, p);
        let rest = regular_files(d);
        if entries.last().1 {
            assert(rest.push(entries.last().0).drop_last() =~= rest);
        }
    }
}

/// A saved file that the directory listing shows once as a regular file
/// is listed exactly once.
pub proof fn saved_path_listed_once(entries: Seq<(String, bool)>, p: Seq<char>)
    requires
        listed_count(entries, p) == 1,
    ensures
        occurrences(regular_files(entries), p) == 1,
{
    lemma_regular_files_count(entries, p);
}

} // verus!
