//! Tracks the modification times of the files under a source directory and
//! reports the files that changed since the last pass.

use vstd::prelude::*;

verus! {

/// A file and the last modification time seen for it.
pub struct DevFSEntry {
    path: String,
    modified: u64,
}

/// `m` is a modification time newer than `t`.
pub open spec fn is_newer(m: Option<u64>, t: u64) -> bool {
    m matches Some(x) && x > t
}

/// The entries after a pass that saw the times `ms`: an entry whose file is
/// newer takes the new time, the others stay.
pub open spec fn advanced(es: Seq<(Seq<char>, u64)>, ms: Seq<Option<u64>>) -> Seq<
    (Seq<char>, u64),
> {
    Seq::new(
        es.len(),
        |i: int|
            if is_newer(ms[i], es[i].1) {
                (es[i].0, ms[i]->0)
            } else {
                es[i]
            },
    )
}

/// The paths, in order, of the first `n` entries whose files are newer.
pub open spec fn changed_paths(es: Seq<(Seq<char>, u64)>, ms: Seq<Option<u64>>, n: int) -> Seq<
    Seq<char>,
>
    decreases n,
{
    if n <= 0 {
        Seq::empty()
    } else if is_newer(ms[n - 1], es[n - 1].1) {
        changed_paths(es, ms, n - 1).push(es[n - 1].0)
    } else {
        changed_paths(es, ms, n - 1)
    }
}

impl DevFSEntry {
    pub closed spec fn path(&self) -> Seq<char> {
        self.path@
    }

    pub closed spec fn modified(&self) -> u64 {
        self.modified
    }

    pub open spec fn model(&self) -> (Seq<char>, u64) {
        (self.path(), self.modified())
    }

    pub fn new(path: String, modified: u64) -> (r: DevFSEntry)
        ensures
            r.path() == path@,
            r.modified() == modified,
    {
        DevFSEntry { path, modified }
    }

    pub fn path_str(&self) -> (r: &str)
        ensures
            r@ == self.path(),
    {
        self.path.as_str()
    }

    /// Compares the file's current modification time, `None` when it could
    /// not be read, with the one recorded; a newer time is recorded and
    /// reported.
    pub fn is_dirty(&mut self, modified: Option<u64>) -> (r: bool)
        ensures
            r == is_newer(modified, old(self).modified()),
            final(self).path() == old(self).path(),
            final(self).modified() == (if r {
                modified->0
            } else {
                old(self).modified()
            }),
    {
        match modified {
            Some(m) => {
                if m > self.modified {
                    self.modified = m;
                    true
                } else {
                    false
                }
            },
            None => false,
        }
    }
}

/// The tracked files of a source tree.
pub struct DevFS {
    entries: Vec<DevFSEntry>,
}

impl DevFS {
    /// Each entry's path and recorded modification time, in scan order.
    pub closed spec fn entries(&self) -> Seq<(Seq<char>, u64)> {
        self.entries@.map_values(|e: DevFSEntry| e.model())
    }

    /// Starts tracking `files`, the regular files found under the root, all
    /// with the baseline `current_time`. Fails when the root is not a
    /// directory.
    pub fn init(root_is_dir: bool, files: Vec<String>, current_time: u64) -> (r: Result<DevFS, ()>)
        ensures
            !root_is_dir <==> r is Err,
            r matches Ok(fs) ==> fs.entries().len() == files@.len() && forall|i: int|
                0 <= i < files@.len() ==> #[trigger] fs.entries()[i] == (files@[i]@, current_time),
    {
        if !root_is_dir {
            return Err(());
        }
        let mut entries: Vec<DevFSEntry> = Vec::new();
        let ghost all = files@;
        let mut i: usize = 0;
        while i < files.len()
            invariant
                files@ == all,
                i <= all.len(),
                entries@.len() == i,
                forall|j: int|
                    0 <= j < i ==> (#[trigger] entries@[j]).model() == (all[j]@, current_time),
            decreases all.len() - i,
        {
            entries.push(DevFSEntry::new(files[i].clone(), current_time));
            i = i + 1;
        }
        let fs = DevFS { entries };
        assert forall|i: int| 0 <= i < all.len() implies #[trigger] fs.entries()[i] == (
            all[i]@,
            current_time,
        ) by {
            assert(fs.entries()[i] == fs.entries@[i].model());
        }
        Ok(fs)
    }

    pub fn len(&self) -> (r: usize)
        ensures
            r == self.entries().len(),
    {
        self.entries.len()
    }

    /// The path of the entry at `i`.
    pub fn path_at(&self, i: usize) -> (r: &str)
        requires
            i < self.entries().len(),
        ensures
            r@ == self.entries()[i as int].0,
    {
        self.entries[i].path_str()
    }

    /// One pass over the entries, given each file's current modification
    /// time (`None` when it could not be read, which counts as unchanged):
    /// returns the paths of the files newer than recorded, in order, and
    /// records their new times.
    pub fn updated_entries(&mut self, modified: &Vec<Option<u64>>) -> (r: Vec<String>)
        requires
            modified@.len() == old(self).entries().len(),
        ensures
            final(self).entries() == advanced(old(self).entries(), modified@),
            r@.map_values(|s: String| s@) == changed_paths(
                old(self).entries(),
                modified@,
                old(self).entries().len() as int,
            ),
    {
        let ghost es = self.entries();
        let mut r: Vec<String> = Vec::new();
        let mut i: usize = 0;
        let n = self.entries.len();
        while i < n
            invariant
                n == es.len(),
                modified@.len() == n,
                i <= n,
                self.entries().len() == n,
                forall|j: int| 0 <= j < i ==> #[trigger] self.entries()[j] == advanced(es, modified@)[j],
                forall|j: int| i <= j < n ==> #[trigger] self.entries()[j] == es[j],
                r@.map_values(|s: String| s@) == changed_paths(es, modified@, i as int),
            decreases n - i,
        {
            let ghost before = self.entries@;
            let ghost r_before = r@;
            let ghost pre = self.entries();
            assert(self.entries()[i as int] == es[i as int]);
            assert(self.entries()[i as int] == before[i as int].model());
            let dirty = self.entries[i].is_dirty(modified[i]);
            proof {
                assert(before[i as int].model() == es[i as int]);
                assert(self.entries@ =~= before.update(i as int, self.entries@[i as int]));
                assert(self.entries()[i as int] == advanced(es, modified@)[i as int]);
                assert forall|j: int| 0 <= j < n && j != i implies #[trigger] self.entries()[j]
                    == pre[j] by {
                    assert(self.entries@[j] == before[j]);
                    assert(pre[j] == before[j].model());
                }
            }
            if dirty {
                let p = self.entries[i].path_str().to_owned();
                r.push(p);
                proof {
                    assert(r@.map_values(|s: String| s@) =~= r_before.map_values(|s: String| s@).push(es[i as int].0));
                }
            }
            proof {
                assert(r@.map_values(|s: String| s@) =~= changed_paths(es, modified@, i + 1));
            }
            i = i + 1;
        }
        assert(self.entries() =~= advanced(es, modified@));
        r
    }
}

/// Once a pass has recorded the times it saw, a second pass that sees the
/// same times reports nothing: a file is reported once per modification.
pub proof fn lemma_reported_once(es: Seq<(Seq<char>, u64)>, ms: Seq<Option<u64>>, n: int)
    requires
        ms.len() == es.len(),
        0 <= n <= es.len(),
    ensures
        changed_paths(advanced(es, ms), ms, n) == Seq::<Seq<char>>::empty(),
    decreases n,
{
    if n > 0 {
        lemma_reported_once(es, ms, n - 1);
    }
}

} // verus!
