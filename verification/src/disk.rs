//! An explicit model of the slice of the filesystem the library touches: a
//! set of directory paths and a map from file paths to their text. Every
//! operation of the library is verified against this model; the unverified
//! shell around the library mirrors the model's directories and files onto
//! the real filesystem.

use vstd::prelude::*;

use crate::utils::{
    distinct_strs, seq_has_str, spec_starts_with, str_eq, str_starts_with, vec_contains_str,
};

verus! {

/// Whether the path `p` is `prefix` itself or lies underneath it.
pub open spec fn spec_within(prefix: Seq<char>, p: Seq<char>) -> bool {
    p == prefix || spec_starts_with(p, prefix + "/"@)
}

/// The directories and files the library has seen or produced. Writes are
/// recorded in order; the effective content of a path is the last write.
pub struct Disk {
    dirs: Vec<String>,
    files: Vec<(String, String)>,
}

/// The content that `entries` gives to `path`: the text of the last entry
/// recorded under that path, if any.
pub closed spec fn lookup(entries: Seq<(String, String)>, path: Seq<char>) -> Option<Seq<char>>
    decreases entries.len(),
{
    if entries.len() == 0 {
        None
    } else if entries.last().0@ == path {
        Some(entries.last().1@)
    } else {
        lookup(entries.drop_last(), path)
    }
}

proof fn lemma_lookup_push(entries: Seq<(String, String)>, entry: (String, String), path: Seq<char>)
    ensures
        lookup(entries.push(entry), path) == if path == entry.0@ {
            Some(entry.1@)
        } else {
            lookup(entries, path)
        },
{
    assert(entries.push(entry).drop_last() =~= entries);
}

proof fn lemma_lookup_take(entries: Seq<(String, String)>, i: int, path: Seq<char>)
    requires
        0 <= i < entries.len(),
    ensures
        lookup(entries.take(i + 1), path) == if entries[i].0@ == path {
            Some(entries[i].1@)
        } else {
            lookup(entries.take(i), path)
        },
{
    assert(entries.take(i + 1).drop_last() =~= entries.take(i));
    assert(entries.take(i + 1).last() == entries[i]);
}

/// The entries of `entries` whose key does not lie within `prefix`, in
/// their original order.
spec fn keep_entries(entries: Seq<(String, String)>, prefix: Seq<char>) -> Seq<(String, String)>
    decreases entries.len(),
{
    if entries.len() == 0 {
        entries
    } else {
        let rest = keep_entries(entries.drop_last(), prefix);
        if spec_within(prefix, entries.last().0@) {
            rest
        } else {
            rest.push(entries.last())
        }
    }
}

proof fn lemma_lookup_keep(entries: Seq<(String, String)>, prefix: Seq<char>)
    ensures
        forall|p: Seq<char>| #[trigger] lookup(keep_entries(entries, prefix), p) == (
        if spec_within(prefix, p) {
            None
        } else {
            lookup(entries, p)
        }),
    decreases entries.len(),
{
    if entries.len() > 0 {
        lemma_lookup_keep(entries.drop_last(), prefix);
        let rest = keep_entries(entries.drop_last(), prefix);
        assert forall|p: Seq<char>| #[trigger] lookup(keep_entries(entries, prefix), p) == (
        if spec_within(prefix, p) {
            None
        } else {
            lookup(entries, p)
        }) by {
            if !spec_within(prefix, entries.last().0@) {
                lemma_lookup_push(rest, entries.last(), p);
            }
        }
    }
}

proof fn lemma_lookup_some_iff_index(entries: Seq<(String, String)>, path: Seq<char>)
    ensures
        lookup(entries, path) is Some <==> exists|i: int|
            0 <= i < entries.len() && entries[i].0@ == path,
    decreases entries.len(),
{
    if entries.len() > 0 {
        lemma_lookup_some_iff_index(entries.drop_last(), path);
        if entries.last().0@ != path {
            if exists|i: int| 0 <= i < entries.len() && entries[i].0@ == path {
                let i = choose|i: int| 0 <= i < entries.len() && entries[i].0@ == path;
                assert(entries.drop_last()[i] == entries[i]);
            }
        }
    }
}

impl Disk {
    /// The effective files of the disk, each path mapped to its text.
    pub closed spec fn files(&self) -> Map<Seq<char>, Seq<char>> {
        Map::new(
            |p: Seq<char>| lookup(self.files@, p) is Some,
            |p: Seq<char>| lookup(self.files@, p)->Some_0,
        )
    }

    /// The directories of the disk.
    pub closed spec fn dirs(&self) -> Set<Seq<char>> {
        Set::new(|p: Seq<char>| exists|i: int| 0 <= i < self.dirs@.len() && self.dirs@[i]@ == p)
    }

    /// An empty disk: no directories, no files.
    pub fn new() -> (d: Disk)
        ensures
            d.files() == Map::<Seq<char>, Seq<char>>::empty(),
            d.dirs() == Set::<Seq<char>>::empty(),
    {
        let d = Disk { dirs: Vec::new(), files: Vec::new() };
        proof {
            assert(d.files() =~= Map::<Seq<char>, Seq<char>>::empty());
            assert(d.dirs() =~= Set::<Seq<char>>::empty());
        }
        d
    }

    /// Records the directory at `path`; directories already present are
    /// unaffected, and the files are untouched.
    pub fn mkdir(&mut self, path: &str)
        ensures
            final(self).dirs() == old(self).dirs().insert(path@),
            final(self).files() == old(self).files(),
    {
        self.dirs.push(path.to_owned());
        proof {
            assert(self.dirs() =~= old(self).dirs().insert(path@)) by {
                assert forall|p: Seq<char>| old(self).dirs().insert(path@).contains(p)
                    implies self.dirs().contains(p) by {
                    if p == path@ {
                        assert(self.dirs@[self.dirs@.len() - 1]@ == p);
                    } else {
                        let i = choose|i: int|
                            0 <= i < old(self).dirs@.len() && old(self).dirs@[i]@ == p;
                        assert(self.dirs@[i]@ == p);
                    }
                }
            }
            assert(self.files() =~= old(self).files());
        }
    }

    /// Writes `content` at `path`, creating the file or replacing whatever
    /// text it held; the directories are untouched.
    pub fn write_file(&mut self, path: &str, content: &str)
        ensures
            final(self).files() == old(self).files().insert(path@, content@),
            final(self).dirs() == old(self).dirs(),
    {
        let entry = (path.to_owned(), content.to_owned());
        self.files.push(entry);
        proof {
            let before = old(self).files@;
            assert(self.files@ == before.push(entry));
            assert forall|p: Seq<char>| #[trigger] lookup(self.files@, p) == (if p == path@ {
                Some(content@)
            } else {
                lookup(before, p)
            }) by {
                lemma_lookup_push(before, entry, p);
            }
            assert(self.files() =~= old(self).files().insert(path@, content@));
            assert(self.dirs() =~= old(self).dirs());
        }
    }

    /// Whether a directory stands at `path`.
    pub fn has_dir(&self, path: &str) -> (b: bool)
        ensures
            b == self.dirs().contains(path@),
    {
        vec_contains_str(&self.dirs, path)
    }

    /// The text of the file at `path`, or `None` where no file stands.
    pub fn read(&self, path: &str) -> (r: Option<String>)
        ensures
            match r {
                Some(s) => self.files().dom().contains(path@) && s@ == self.files()[path@],
                None => !self.files().dom().contains(path@),
            },
    {
        let entries = &self.files;
        let mut found: Option<usize> = None;
        let mut i: usize = 0;
        proof {
            assert(entries@.take(0) =~= Seq::<(String, String)>::empty());
        }
        while i < entries.len()
            invariant
                i <= entries@.len(),
                entries == &self.files,
                match found {
                    Some(j) => j < i && lookup(entries@.take(i as int), path@) == Some(
                        entries@[j as int].1@,
                    ),
                    None => lookup(entries@.take(i as int), path@) is None,
                },
            decreases entries@.len() - i,
        {
            proof {
                lemma_lookup_take(entries@, i as int, path@);
            }
            if str_eq(entries[i].0.as_str(), path) {
                found = Some(i);
            }
            i = i + 1;
        }
        proof {
            assert(entries@.take(entries@.len() as int) =~= entries@);
        }
        match found {
            Some(j) => Some(entries[j].1.clone()),
            None => None,
        }
    }

    /// Whether a file stands at `path`.
    pub fn has_file(&self, path: &str) -> (b: bool)
        ensures
            b == self.files().dom().contains(path@),
    {
        self.read(path).is_some()
    }

    /// Removes the directory at `prefix` with everything underneath it:
    /// afterwards no directory and no file within `prefix` stands, and
    /// everything outside it is exactly as before.
    pub fn remove_subtree(&mut self, prefix: &str)
        ensures
            final(self).dirs() == old(self).dirs().difference(
                Set::new(|p: Seq<char>| spec_within(prefix@, p)),
            ),
            final(self).files() == old(self).files().remove_keys(
                Set::new(|p: Seq<char>| spec_within(prefix@, p)),
            ),
    {
        let ghost dirs0 = self.dirs@;
        let ghost files0 = self.files@;
        let mut within = prefix.to_owned();
        within.append("/");
        let mut kept_dirs: Vec<String> = Vec::new();
        let mut i: usize = 0;
        while i < self.dirs.len()
            invariant
                i <= self.dirs@.len(),
                self.dirs@ == dirs0,
                self.files@ == files0,
                within@ == prefix@ + "/"@,
                forall|k: int|
                    0 <= k < kept_dirs@.len() ==> !spec_within(
                        prefix@,
                        (#[trigger] kept_dirs@[k])@,
                    ) && seq_has_str(dirs0, kept_dirs@[k]@),
                forall|j: int|
                    0 <= j < i && !spec_within(prefix@, (#[trigger] dirs0[j])@) ==> seq_has_str(
                        kept_dirs@,
                        dirs0[j]@,
                    ),
            decreases self.dirs@.len() - i,
        {
            let ghost kept0 = kept_dirs@;
            let d = &self.dirs[i];
            let drop = str_eq(d.as_str(), prefix) || str_starts_with(d.as_str(), within.as_str());
            if !drop {
                kept_dirs.push(d.clone());
            }
            proof {
                assert forall|j: int|
                    0 <= j < i + 1 && !spec_within(prefix@, (#[trigger] dirs0[j])@)
                    implies seq_has_str(kept_dirs@, dirs0[j]@) by {
                    if j < i {
                        let k = choose|k: int|
                            0 <= k < kept0.len() && (#[trigger] kept0[k])@ == dirs0[j]@;
                        assert(kept_dirs@[k]@ == dirs0[j]@);
                    } else {
                        assert(kept_dirs@[kept_dirs@.len() - 1]@ == dirs0[j]@);
                    }
                }
                assert forall|k: int| 0 <= k < kept_dirs@.len() implies !spec_within(
                    prefix@,
                    (#[trigger] kept_dirs@[k])@,
                ) && seq_has_str(dirs0, kept_dirs@[k]@) by {
                    if k < kept0.len() {
                        assert(kept_dirs@[k] == kept0[k]);
                    } else {
                        assert(dirs0[i as int]@ == kept_dirs@[k]@);
                    }
                }
            }
            i = i + 1;
        }
        let mut kept_files: Vec<(String, String)> = Vec::new();
        let mut j: usize = 0;
        proof {
            assert(files0.take(0) =~= Seq::<(String, String)>::empty());
            assert(kept_files@ =~= keep_entries(files0.take(0), prefix@));
        }
        while j < self.files.len()
            invariant
                j <= self.files@.len(),
                self.files@ == files0,
                within@ == prefix@ + "/"@,
                kept_files@ == keep_entries(files0.take(j as int), prefix@),
            decreases self.files@.len() - j,
        {
            let f = &self.files[j];
            let drop = str_eq(f.0.as_str(), prefix) || str_starts_with(
                f.0.as_str(),
                within.as_str(),
            );
            if !drop {
                kept_files.push((f.0.clone(), f.1.clone()));
            }
            proof {
                assert(files0.take(j + 1).drop_last() =~= files0.take(j as int));
                assert(files0.take(j + 1).last() == files0[j as int]);
                if !spec_within(prefix@, files0[j as int].0@) {
                    assert(kept_files@.last().0@ == files0[j as int].0@);
                    assert(kept_files@.last().1@ == files0[j as int].1@);
                    assert(kept_files@ =~= keep_entries(files0.take(j as int), prefix@).push(
                        kept_files@.last(),
                    ));
                    assert(kept_files@ =~= keep_entries(files0.take(j + 1), prefix@));
                } else {
                    assert(kept_files@ =~= keep_entries(files0.take(j + 1), prefix@));
                }
            }
            j = j + 1;
        }
        self.dirs = kept_dirs;
        self.files = kept_files;
        proof {
            assert(files0.take(files0.len() as int) =~= files0);
            lemma_lookup_keep(files0, prefix@);
            assert(self.files() =~= old(self).files().remove_keys(
                Set::new(|p: Seq<char>| spec_within(prefix@, p)),
            ));
            assert forall|p: Seq<char>|
                self.dirs().contains(p) <==> (old(self).dirs().contains(p) && !spec_within(
                    prefix@,
                    p,
                )) by {
                if self.dirs().contains(p) {
                    let k = choose|k: int| 0 <= k < self.dirs@.len() && self.dirs@[k]@ == p;
                    assert(!spec_within(prefix@, self.dirs@[k]@) && seq_has_str(
                        dirs0,
                        self.dirs@[k]@,
                    ));
                    let j = choose|j: int| 0 <= j < dirs0.len() && (#[trigger] dirs0[j])@ == p;
                    assert(old(self).dirs().contains(p));
                } else {
                    if old(self).dirs().contains(p) && !spec_within(prefix@, p) {
                        let j = choose|j: int| 0 <= j < dirs0.len() && dirs0[j]@ == p;
                        assert(seq_has_str(self.dirs@, p));
                        let k = choose|k: int|
                            0 <= k < self.dirs@.len() && (#[trigger] self.dirs@[k])@ == p;
                        assert(self.dirs().contains(p));
                    }
                }
            }
        }
    }

    /// The paths of the disk's directories, in the order they were
    /// recorded; a directory recorded more than once appears each time.
    pub fn dir_list(&self) -> (v: Vec<String>)
        ensures
            forall|i: int| 0 <= i < v@.len() ==> self.dirs().contains((#[trigger] v@[i])@),
            forall|p: Seq<char>| #[trigger] self.dirs().contains(p) ==> seq_has_str(v@, p),
    {
        let mut out: Vec<String> = Vec::new();
        let mut i: usize = 0;
        while i < self.dirs.len()
            invariant
                i <= self.dirs@.len(),
                out@.len() == i,
                forall|j: int| 0 <= j < i ==> (#[trigger] out@[j])@ == self.dirs@[j]@,
            decreases self.dirs@.len() - i,
        {
            out.push(self.dirs[i].clone());
            i = i + 1;
        }
        proof {
            assert forall|p: Seq<char>| #[trigger] self.dirs().contains(p) implies seq_has_str(
                out@,
                p,
            ) by {
                let j = choose|j: int| 0 <= j < self.dirs@.len() && self.dirs@[j]@ == p;
                assert(out@[j]@ == p);
            }
        }
        out
    }

    /// Whether some entry of `entries` is keyed by `p`.
    pub closed spec fn entries_have_key(entries: Seq<(String, String)>, p: Seq<char>) -> bool {
        exists|j: int| 0 <= j < entries.len() && (#[trigger] entries[j]).0@ == p
    }

    /// The paths of every file of the disk, each exactly once.
    pub fn paths(&self) -> (v: Vec<String>)
        ensures
            forall|i: int| 0 <= i < v@.len() ==> self.files().dom().contains((#[trigger] v@[i])@),
            forall|p: Seq<char>| #[trigger] self.files().dom().contains(p) ==> seq_has_str(v@, p),
            distinct_strs(v@),
    {
        let mut out: Vec<String> = Vec::new();
        let mut i: usize = 0;
        while i < self.files.len()
            invariant
                i <= self.files@.len(),
                forall|j: int| 0 <= j < i ==> seq_has_str(out@, (#[trigger] self.files@[j]).0@),
                forall|k: int| 0 <= k < out@.len() ==> Self::entries_have_key(
                    self.files@,
                    (#[trigger] out@[k])@,
                ),
                distinct_strs(out@),
            decreases self.files@.len() - i,
        {
            let ghost out_before = out@;
            let present = vec_contains_str(&out, self.files[i].0.as_str());
            if !present {
                out.push(self.files[i].0.clone());
            }
            proof {
                let key = self.files@[i as int].0@;
                if !present {
                    assert(out@ == out_before.push(self.files@[i as int].0));
                    assert(out@[out@.len() - 1]@ == key);
                    assert(distinct_strs(out@)) by {
                        assert forall|k: int, l: int| 0 <= k < l < out@.len() implies (
                        #[trigger] out@[k])@ != (#[trigger] out@[l])@ by {
                            if l == out@.len() - 1 {
                                assert(!seq_has_str(out_before, key));
                                assert(out@[k] == out_before[k]);
                            }
                        }
                    }
                    assert(Self::entries_have_key(self.files@, key)) by {
                        assert((self.files@[i as int]).0@ == key);
                    }
                }
                assert forall|j: int| 0 <= j < i + 1 implies seq_has_str(
                    out@,
                    (#[trigger] self.files@[j]).0@,
                ) by {
                    if j < i {
                        let k = choose|k: int|
                            0 <= k < out_before.len() && (#[trigger] out_before[k])@
                                == self.files@[j].0@;
                        assert(out@[k]@ == self.files@[j].0@);
                    } else if present {
                        assert(seq_has_str(out@, key));
                    } else {
                        assert(out@[out@.len() - 1]@ == key);
                    }
                }
                assert forall|k: int| 0 <= k < out@.len() implies Self::entries_have_key(
                    self.files@,
                    (#[trigger] out@[k])@,
                ) by {
                    if !present && k == out@.len() - 1 {
                        assert((self.files@[i as int]).0@ == out@[k]@);
                    }
                }
            }
            i = i + 1;
        }
        proof {
            assert forall|k: int| 0 <= k < out@.len() implies self.files().dom().contains(
                (#[trigger] out@[k])@,
            ) by {
                lemma_lookup_some_iff_index(self.files@, out@[k]@);
            }
            assert forall|p: Seq<char>| #[trigger] self.files().dom().contains(p)
                implies seq_has_str(out@, p) by {
                lemma_lookup_some_iff_index(self.files@, p);
                let j = choose|j: int| 0 <= j < self.files@.len() && self.files@[j].0@ == p;
                assert(seq_has_str(out@, self.files@[j].0@));
            }
        }
        out
    }
}

} // verus!
