//! The directory state manager and its filesystem model.
//!
//! A directory tree is modelled as a finite map from slash-separated file
//! paths to file contents; directories exist implicitly as path prefixes.
//! Backup and restore perform destructive-replace semantics on this model:
//! validate the source, remove the target subtree, then copy the source
//! subtree across. The real filesystem work is done by an unverified shell
//! around this crate that mirrors these operations; the model is what the
//! contracts and the round-trip law speak about.

use vstd::prelude::*;
use vstd::slice::slice_to_vec;

use crate::error::LifecycleError;
use crate::text::bytes_eq;

verus! {

/// The path separator.
pub open spec fn slash() -> u8 {
    47
}

/// Path `p` denotes a file strictly inside directory `d`: `d` is a proper
/// prefix of `p` and a separator follows it.
pub open spec fn in_dir(p: Seq<u8>, d: Seq<u8>) -> bool {
    &&& d.len() < p.len()
    &&& p.subrange(0, d.len() as int) == d
    &&& p[d.len() as int] == slash()
}

/// Directory `d` currently holds at least one file in `m`.
pub open spec fn dir_occupied(m: Map<Seq<u8>, Seq<u8>>, d: Seq<u8>) -> bool {
    exists|k: Seq<u8>| #[trigger] m.dom().contains(k) && in_dir(k, d)
}

/// `m` with every file inside directory `d` removed.
pub open spec fn scrub_dir(m: Map<Seq<u8>, Seq<u8>>, d: Seq<u8>) -> Map<Seq<u8>, Seq<u8>> {
    Map::new(|k: Seq<u8>| m.dom().contains(k) && !in_dir(k, d), |k: Seq<u8>| m[k])
}

/// `m` after a destructive replace of directory `dst` by the contents of
/// directory `src`: whatever was inside `dst` is gone, and for every file
/// `src/rest` there is a file `dst/rest` with the same bytes. Files outside
/// `dst` are untouched.
pub open spec fn graft(m: Map<Seq<u8>, Seq<u8>>, src: Seq<u8>, dst: Seq<u8>) -> Map<
    Seq<u8>,
    Seq<u8>,
> {
    Map::new(
        |k: Seq<u8>|
            (m.dom().contains(k) && !in_dir(k, dst)) || (in_dir(k, dst) && m.dom().contains(
                src + k.skip(dst.len() as int),
            )),
        |k: Seq<u8>|
            if in_dir(k, dst) {
                m[src + k.skip(dst.len() as int)]
            } else {
                m[k]
            },
    )
}

/// Directories `a` and `b` name disjoint subtrees: distinct, and neither
/// lies inside the other.
pub open spec fn dirs_separate(a: Seq<u8>, b: Seq<u8>) -> bool {
    a != b && !in_dir(a, b) && !in_dir(b, a)
}

/// A file cannot lie inside two unrelated directories: if it is inside both,
/// one directory lies inside the other.
proof fn lemma_in_dir_nested(k: Seq<u8>, a: Seq<u8>, b: Seq<u8>)
    requires
        in_dir(k, a),
        in_dir(k, b),
        a != b,
    ensures
        in_dir(a, b) || in_dir(b, a),
{
    if a.len() == b.len() {
        assert(a =~= b);
    } else if a.len() < b.len() {
        assert(b.subrange(0, a.len() as int) =~= a);
        assert(b[a.len() as int] == k[a.len() as int]);
    } else {
        assert(a.subrange(0, b.len() as int) =~= b);
        assert(a[b.len() as int] == k[b.len() as int]);
    }
}

/// One regular file of the model: a path and its contents.
#[derive(Debug)]
struct FsFile {
    /// Slash-separated path.
    path: Vec<u8>,
    /// File contents.
    data: Vec<u8>,
}

/// No two entries share a path.
spec fn unique_paths(s: Seq<FsFile>) -> bool {
    forall|a: int, b: int| 0 <= a < b < s.len() ==> s[a].path@ != s[b].path@
}

/// The map an entry list denotes; a later entry for the same path wins.
spec fn files_map(s: Seq<FsFile>) -> Map<Seq<u8>, Seq<u8>>
    decreases s.len(),
{
    if s.len() == 0 {
        Map::empty()
    } else {
        files_map(s.drop_last()).insert(s.last().path@, s.last().data@)
    }
}

/// The domain of [`files_map`] is exactly the set of entry paths.
proof fn lemma_files_map_dom(s: Seq<FsFile>)
    ensures
        forall|k: Seq<u8>|
            #[trigger] files_map(s).dom().contains(k) <==> exists|i: int|
                0 <= i < s.len() && s[i].path@ == k,
    decreases s.len(),
{
    if s.len() > 0 {
        lemma_files_map_dom(s.drop_last());
        assert forall|k: Seq<u8>| #[trigger]
            files_map(s).dom().contains(k) <==> exists|i: int|
                0 <= i < s.len() && s[i].path@ == k by {
            if files_map(s).dom().contains(k) {
                if k == s.last().path@ {
                    assert(s[s.len() - 1].path@ == k);
                } else {
                    assert(files_map(s.drop_last()).dom().contains(k));
                    let i = choose|i: int|
                        0 <= i < s.drop_last().len() && s.drop_last()[i].path@ == k;
                    assert(s.drop_last()[i] == s[i]);
                    assert(s[i].path@ == k);
                }
            }
            if exists|i: int| 0 <= i < s.len() && s[i].path@ == k {
                let i = choose|i: int| 0 <= i < s.len() && s[i].path@ == k;
                if i < s.len() - 1 {
                    assert(s.drop_last()[i].path@ == k);
                    assert(files_map(s.drop_last()).dom().contains(k));
                } else {
                    assert(k == s.last().path@);
                }
                assert(files_map(s).dom().contains(k));
            }
        }
    }
}

/// With unique paths, [`files_map`] sends each entry's path to its data.
proof fn lemma_files_map_at(s: Seq<FsFile>)
    requires
        unique_paths(s),
    ensures
        forall|i: int|
            0 <= i < s.len() ==> files_map(s).dom().contains(#[trigger] s[i].path@) && files_map(
                s,
            )[s[i].path@] == s[i].data@,
    decreases s.len(),
{
    if s.len() > 0 {
        assert forall|a: int, b: int|
            0 <= a < b < s.drop_last().len() implies s.drop_last()[a].path@
            != s.drop_last()[b].path@ by {
            assert(s[a].path@ != s[b].path@);
        }
        lemma_files_map_at(s.drop_last());
        assert forall|i: int|
            0 <= i < s.len() implies files_map(s).dom().contains(#[trigger] s[i].path@)
            && files_map(s)[s[i].path@] == s[i].data@ by {
            if i < s.len() - 1 {
                assert(s.drop_last()[i].path@ == s[i].path@ && s.drop_last()[i].data@
                    == s[i].data@);
                assert(s[i].path@ != s.last().path@);
            }
        }
    }
}

/// Updating one entry's data updates exactly that path in the map.
proof fn lemma_files_map_update(s: Seq<FsFile>, i: int, f: FsFile)
    requires
        unique_paths(s),
        0 <= i < s.len(),
        f.path@ == s[i].path@,
    ensures
        files_map(s.update(i, f)) == files_map(s).insert(f.path@, f.data@),
    decreases s.len(),
{
    let t = s.update(i, f);
    if i == s.len() - 1 {
        assert(t.drop_last() =~= s.drop_last());
        assert(files_map(t) =~= files_map(s).insert(f.path@, f.data@));
    } else {
        assert forall|a: int, b: int|
            0 <= a < b < s.drop_last().len() implies s.drop_last()[a].path@
            != s.drop_last()[b].path@ by {
            assert(s[a].path@ != s[b].path@);
        }
        assert(s.drop_last()[i].path@ == s[i].path@);
        lemma_files_map_update(s.drop_last(), i, f);
        assert(t.drop_last() =~= s.drop_last().update(i, f));
        assert(t.last() == s.last());
        assert(s[i].path@ != s.last().path@);
        assert(files_map(t) =~= files_map(s).insert(f.path@, f.data@));
    }
}

/// Copies one model entry.
fn clone_file(f: &FsFile) -> (r: FsFile)
    ensures
        r.path@ == f.path@,
        r.data@ == f.data@,
{
    FsFile { path: slice_to_vec(f.path.as_slice()), data: slice_to_vec(f.data.as_slice()) }
}

/// The in-memory model of the filesystem subtrees the lifecycle tooling
/// touches: a finite map from file path to contents, held as an entry list
/// with unique paths.
#[derive(Debug)]
pub struct FsTree {
    files: Vec<FsFile>,
}

impl View for FsTree {
    type V = Map<Seq<u8>, Seq<u8>>;

    closed spec fn view(&self) -> Map<Seq<u8>, Seq<u8>> {
        files_map(self.files@)
    }
}

impl FsTree {
    /// The entry list holds no duplicate path.
    pub closed spec fn wf(self) -> bool {
        unique_paths(self.files@)
    }

    /// An empty tree.
    pub fn new() -> (t: FsTree)
        ensures
            t.wf(),
            t@ == Map::<Seq<u8>, Seq<u8>>::empty(),
    {
        FsTree { files: Vec::new() }
    }

    /// Writes `data` at `path`, replacing any file already there.
    pub fn write(&mut self, path: &[u8], data: &[u8])
        requires
            old(self).wf(),
        ensures
            final(self).wf(),
            final(self)@ == old(self)@.insert(path@, data@),
    {
        let n = self.files.len();
        let mut i: usize = 0;
        while i < n
            invariant
                n == self.files@.len(),
                0 <= i <= n,
                self == old(self),
                old(self).wf(),
                forall|j: int| 0 <= j < i ==> self.files@[j].path@ != path@,
            decreases n - i,
        {
            if bytes_eq(self.files[i].path.as_slice(), path) {
                let entry = &mut self.files[i];
                entry.data = slice_to_vec(data);
                proof {
                    assert(self.files@ =~= old(self).files@.update(i as int, self.files@[i as int]));
                    lemma_files_map_update(
                        old(self).files@,
                        i as int,
                        self.files@[i as int],
                    );
                    assert forall|a: int, b: int|
                        0 <= a < b < self.files@.len() implies self.files@[a].path@
                        != self.files@[b].path@ by {
                        assert(self.files@[a].path@ == old(self).files@[a].path@);
                        assert(self.files@[b].path@ == old(self).files@[b].path@);
                    }
                }
                return ;
            }
            i += 1;
        }
        self.files.push(FsFile { path: slice_to_vec(path), data: slice_to_vec(data) });
        proof {
            assert(self.files@.drop_last() =~= old(self).files@);
            assert forall|a: int, b: int|
                0 <= a < b < self.files@.len() implies self.files@[a].path@
                != self.files@[b].path@ by {
                if b < self.files@.len() - 1 {
                    assert(old(self).files@[a].path@ != old(self).files@[b].path@);
                }
            }
        }
    }

    /// Looks a file up by path.
    pub fn read(&self, path: &[u8]) -> (r: Option<&Vec<u8>>)
        requires
            self.wf(),
        ensures
            match r {
                Some(v) => self@.dom().contains(path@) && v@ == self@[path@],
                None => !self@.dom().contains(path@),
            },
    {
        let n = self.files.len();
        let mut i: usize = 0;
        while i < n
            invariant
                n == self.files@.len(),
                0 <= i <= n,
                self.wf(),
                forall|j: int| 0 <= j < i ==> self.files@[j].path@ != path@,
            decreases n - i,
        {
            if bytes_eq(self.files[i].path.as_slice(), path) {
                proof {
                    lemma_files_map_at(self.files@);
                }
                return Some(&self.files[i].data);
            }
            i += 1;
        }
        proof {
            lemma_files_map_dom(self.files@);
        }
        None
    }

    /// Whether directory `d` currently holds any file.
    pub fn is_dir_occupied(&self, d: &[u8]) -> (r: bool)
        requires
            self.wf(),
        ensures
            r == dir_occupied(self@, d@),
    {
        let n = self.files.len();
        let mut i: usize = 0;
        while i < n
            invariant
                n == self.files@.len(),
                0 <= i <= n,
                self.wf(),
                forall|j: int| 0 <= j < i ==> !in_dir(self.files@[j].path@, d@),
            decreases n - i,
        {
            if path_in_dir(self.files[i].path.as_slice(), d) {
                proof {
                    lemma_files_map_at(self.files@);
                    assert(self@.dom().contains(self.files@[i as int].path@) && in_dir(
                        self.files@[i as int].path@,
                        d@,
                    ));
                }
                return true;
            }
            i += 1;
        }
        proof {
            lemma_files_map_dom(self.files@);
            if dir_occupied(self@, d@) {
                let k = choose|k: Seq<u8>| self@.dom().contains(k) && in_dir(k, d@);
                let j = choose|j: int| 0 <= j < self.files@.len() && self.files@[j].path@ == k;
                assert(!in_dir(self.files@[j].path@, d@));
            }
        }
        false
    }

    /// Removes every file inside directory `d`, recursively; a no-op when
    /// the directory is empty or absent.
    pub fn remove_dir_all(&mut self, d: &[u8])
        requires
            old(self).wf(),
        ensures
            final(self).wf(),
            final(self)@ == scrub_dir(old(self)@, d@),
            forall|k: Seq<u8>| final(self)@.dom().contains(k) ==> !in_dir(k, d@),
    {
        let ghost s0 = self.files@;
        let n = self.files.len();
        let mut out: Vec<FsFile> = Vec::new();
        let mut i: usize = 0;
        while i < n
            invariant
                n == s0.len(),
                self.files@ == s0,
                unique_paths(s0),
                0 <= i <= n,
                files_map(out@) == scrub_dir(files_map(s0.take(i as int)), d@),
                forall|a: int|
                    0 <= a < out@.len() ==> exists|j: int|
                        0 <= j < i && (#[trigger] out@[a].path@) == s0[j].path@,
                unique_paths(out@),
                forall|a: int| 0 <= a < out@.len() ==> !in_dir(#[trigger] out@[a].path@, d@),
            decreases n - i,
        {
            proof {
                assert(s0.take(i + 1).drop_last() =~= s0.take(i as int));
                assert(s0.take(i + 1).last() == s0[i as int]);
            }
            if !path_in_dir(self.files[i].path.as_slice(), d) {
                let c = clone_file(&self.files[i]);
                proof {
                    assert forall|a: int| 0 <= a < out@.len() implies out@[a].path@
                        != c.path@ by {
                        let j = choose|j: int|
                            0 <= j < i && out@[a].path@ == s0[j].path@;
                        assert(s0[j].path@ != s0[i as int].path@);
                    }
                    assert(out@.push(c).drop_last() =~= out@);
                    assert(files_map(out@.push(c)) =~= scrub_dir(
                        files_map(s0.take(i + 1)),
                        d@,
                    ));
                }
                out.push(c);
                proof {
                    assert forall|a: int|
                        0 <= a < out@.len() implies exists|j: int|
                        0 <= j < i + 1 && (#[trigger] out@[a].path@) == s0[j].path@ by {
                        if a < out@.len() - 1 {
                            let j = choose|j: int|
                                0 <= j < i && out@[a].path@ == s0[j].path@;
                            assert(0 <= j < i + 1 && out@[a].path@ == s0[j].path@);
                        } else {
                            assert(out@[a].path@ == s0[i as int].path@);
                        }
                    }
                }
            } else {
                proof {
                    assert(files_map(out@) =~= scrub_dir(files_map(s0.take(i + 1)), d@));
                }
            }
            i += 1;
        }
        proof {
            assert(s0.take(n as int) =~= s0);
        }
        self.files = out;
    }

    /// Copies every file `src/rest` to `dst/rest`, keeping the bytes. Only
    /// called with nothing left inside `dst`.
    fn copy_tree(&mut self, src: &[u8], dst: &[u8])
        requires
            old(self).wf(),
            dirs_separate(src@, dst@),
            forall|k: Seq<u8>| old(self)@.dom().contains(k) ==> !in_dir(k, dst@),
        ensures
            final(self).wf(),
            final(self)@ == graft(old(self)@, src@, dst@),
    {
        let ghost s0 = self.files@;
        let ghost m0 = self@;
        let n = self.files.len();
        let mut copies: Vec<FsFile> = Vec::new();
        let mut i: usize = 0;
        while i < n
            invariant
                n == s0.len(),
                self.files@ == s0,
                unique_paths(s0),
                m0 == files_map(s0),
                dirs_separate(src@, dst@),
                forall|k: Seq<u8>| m0.dom().contains(k) ==> !in_dir(k, dst@),
                0 <= i <= n,
                files_map(s0 + copies@) == with_copies(m0, s0.take(i as int), src@, dst@),
                forall|a: int|
                    0 <= a < copies@.len() ==> exists|j: int|
                        0 <= j < i && in_dir(#[trigger] s0[j].path@, src@) && (
                        #[trigger] copies@[a].path@) == dst@ + s0[j].path@.skip(src@.len() as int)
                            && copies@[a].data@ == s0[j].data@,
                unique_paths(copies@),
            decreases n - i,
        {
            proof {
                assert(s0.take(i + 1).drop_last() =~= s0.take(i as int));
                assert(s0.take(i + 1).last() == s0[i as int]);
            }
            if path_in_dir(self.files[i].path.as_slice(), src) {
                let entry = &self.files[i];
                let newpath = concat_suffix(dst, entry.path.as_slice(), src.len());
                let c = FsFile { path: newpath, data: slice_to_vec(entry.data.as_slice()) };
                proof {
                    let k0 = dst@ + s0[i as int].path@.skip(src@.len() as int);
                    lemma_concat_skip(dst@, s0[i as int].path@.skip(src@.len() as int));
                    lemma_dir_join(s0[i as int].path@, src@);
                    assert forall|a: int| 0 <= a < copies@.len() implies copies@[a].path@
                        != k0 by {
                        let j = choose|j: int|
                            0 <= j < i && in_dir(#[trigger] s0[j].path@, src@) && copies@[a].path@
                                == dst@ + s0[j].path@.skip(src@.len() as int) && copies@[a].data@
                                == s0[j].data@;
                        if copies@[a].path@ == k0 {
                            lemma_concat_skip(dst@, s0[j].path@.skip(src@.len() as int));
                            lemma_dir_join(s0[j].path@, src@);
                            assert(s0[j].path@.skip(src@.len() as int) == s0[i as int].path@.skip(
                                src@.len() as int,
                            ));
                            assert(s0[j].path@ == s0[i as int].path@);
                        }
                    }
                    assert((s0 + copies@.push(c)) =~= (s0 + copies@).push(c));
                    assert((s0 + copies@).push(c).drop_last() =~= s0 + copies@);
                    assert(files_map(s0 + copies@.push(c)) == files_map(s0 + copies@).insert(
                        c.path@,
                        c.data@,
                    ));
                }
                copies.push(c);
                proof {
                    assert forall|a: int|
                        0 <= a < copies@.len() implies exists|j: int|
                        0 <= j < i + 1 && in_dir(#[trigger] s0[j].path@, src@) && (
                        #[trigger] copies@[a].path@) == dst@ + s0[j].path@.skip(src@.len() as int)
                            && copies@[a].data@ == s0[j].data@ by {
                        if a < copies@.len() - 1 {
                            let j = choose|j: int|
                                0 <= j < i && in_dir(#[trigger] s0[j].path@, src@)
                                    && copies@[a].path@ == dst@ + s0[j].path@.skip(
                                    src@.len() as int,
                                ) && copies@[a].data@ == s0[j].data@;
                            assert(0 <= j < i + 1 && in_dir(s0[j].path@, src@) && copies@[a].path@
                                == dst@ + s0[j].path@.skip(src@.len() as int) && copies@[a].data@
                                == s0[j].data@);
                        } else {
                            assert(in_dir(s0[i as int].path@, src@) && copies@[a].path@ == dst@
                                + s0[i as int].path@.skip(src@.len() as int) && copies@[a].data@
                                == s0[i as int].data@);
                        }
                    }
                }
            } else {
                proof {
                    assert(files_map(s0 + copies@) == with_copies(
                        m0,
                        s0.take(i + 1),
                        src@,
                        dst@,
                    ));
                }
            }
            i += 1;
        }
        proof {
            assert(s0.take(n as int) =~= s0);
            lemma_files_map_at(s0);
            lemma_files_map_dom(s0);
            lemma_with_copies_graft(m0, s0, src@, dst@);
            assert forall|k: Seq<u8>| #[trigger]
                copied_key(s0, src@, dst@, k) implies in_dir(k, dst@) && m0.dom().contains(
                src@ + k.skip(dst@.len() as int),
            ) by {
                let j = choose|j: int|
                    0 <= j < s0.len() && in_dir(#[trigger] s0[j].path@, src@) && k == dst@
                        + s0[j].path@.skip(src@.len() as int);
                let q = s0[j].path@.skip(src@.len() as int);
                assert(q[0] == s0[j].path@[src@.len() as int]);
                lemma_concat_in_dir(dst@, q);
                lemma_concat_skip(dst@, q);
                lemma_dir_join(s0[j].path@, src@);
            }
            assert forall|k: Seq<u8>|
                in_dir(k, dst@) && m0.dom().contains(
                    src@ + k.skip(dst@.len() as int),
                ) implies #[trigger] copied_key(s0, src@, dst@, k) by {
                let p = src@ + k.skip(dst@.len() as int);
                let j = choose|j: int| 0 <= j < s0.len() && s0[j].path@ == p;
                let q = k.skip(dst@.len() as int);
                assert(q.len() > 0 && q[0] == k[dst@.len() as int]);
                lemma_concat_in_dir(src@, q);
                lemma_concat_skip(src@, q);
                lemma_dir_join(k, dst@);
                assert(in_dir(s0[j].path@, src@) && k == dst@ + s0[j].path@.skip(
                    src@.len() as int,
                ));
            }
            // uniqueness of the final entry list
            assert forall|a: int|
                0 <= a < copies@.len() implies in_dir(#[trigger] copies@[a].path@, dst@) by {
                let j = choose|j: int|
                    0 <= j < n && in_dir(#[trigger] s0[j].path@, src@) && copies@[a].path@ == dst@
                        + s0[j].path@.skip(src@.len() as int) && copies@[a].data@ == s0[j].data@;
                let q = s0[j].path@.skip(src@.len() as int);
                assert(q[0] == s0[j].path@[src@.len() as int]);
                lemma_concat_in_dir(dst@, q);
            }
        }
        let ghost copies0 = copies@;
        self.files.append(&mut copies);
        proof {
            assert forall|a: int, b: int|
                0 <= a < b < self.files@.len() implies self.files@[a].path@
                != self.files@[b].path@ by {
                if a < n && b >= n {
                    assert(self.files@[a] == s0[a]);
                    assert(self.files@[b] == copies0[b - n]);
                    assert(m0.dom().contains(s0[a].path@));
                    assert(in_dir(copies0[b - n].path@, dst@));
                } else if a < n && b < n {
                    assert(self.files@[a] == s0[a] && self.files@[b] == s0[b]);
                } else {
                    assert(self.files@[a] == copies0[a - n] && self.files@[b] == copies0[b - n]);
                }
            }
            assert(final(self)@ =~= graft(m0, src@, dst@));
        }
    }

    /// Backup: destructively replaces the backup directory `dest` with a
    /// copy of the contents of `home`. Fails with an I/O error, touching
    /// nothing, when `home` holds no files.
    pub fn backup(&mut self, home: &[u8], dest: &[u8]) -> (r: Result<(), LifecycleError>)
        requires
            old(self).wf(),
            dirs_separate(home@, dest@),
        ensures
            final(self).wf(),
            !dir_occupied(old(self)@, home@) ==> r == Err::<(), LifecycleError>(
                LifecycleError::Io,
            ) && final(self)@ == old(self)@,
            dir_occupied(old(self)@, home@) ==> r == Ok::<(), LifecycleError>(()) && final(self)@
                == graft(old(self)@, home@, dest@),
    {
        if !self.is_dir_occupied(home) {
            return Err(LifecycleError::Io);
        }
        self.replace_tree(home, dest);
        Ok(())
    }

    /// Restore: destructively replaces `home` with a copy of the contents of
    /// the backup directory `source`. Fails with a not-found error, touching
    /// nothing — in particular leaving the pre-existing `home` intact — when
    /// the backup source holds no files: the removal of `home` is gated
    /// strictly on successful validation of the source.
    pub fn restore(&mut self, source: &[u8], home: &[u8]) -> (r: Result<(), LifecycleError>)
        requires
            old(self).wf(),
            dirs_separate(source@, home@),
        ensures
            final(self).wf(),
            !dir_occupied(old(self)@, source@) ==> r == Err::<(), LifecycleError>(
                LifecycleError::NotFound,
            ) && final(self)@ == old(self)@,
            dir_occupied(old(self)@, source@) ==> r == Ok::<(), LifecycleError>(()) && final(self)@
                == graft(old(self)@, source@, home@),
    {
        if !self.is_dir_occupied(source) {
            return Err(LifecycleError::NotFound);
        }
        self.replace_tree(source, home);
        Ok(())
    }

    /// Removes the target subtree, then copies the source subtree across.
    fn replace_tree(&mut self, src: &[u8], dst: &[u8])
        requires
            old(self).wf(),
            dirs_separate(src@, dst@),
        ensures
            final(self).wf(),
            final(self)@ == graft(old(self)@, src@, dst@),
    {
        let ghost m0 = self@;
        self.remove_dir_all(dst);
        self.copy_tree(src, dst);
        proof {
            lemma_graft_after_scrub(m0, src@, dst@);
        }
    }
}

/// Removing the target subtree first does not change the outcome of a
/// graft: the graft itself discards whatever was inside the target.
proof fn lemma_graft_after_scrub(m: Map<Seq<u8>, Seq<u8>>, src: Seq<u8>, dst: Seq<u8>)
    requires
        dirs_separate(src, dst),
    ensures
        graft(scrub_dir(m, dst), src, dst) == graft(m, src, dst),
{
    let m1 = scrub_dir(m, dst);
    assert forall|k: Seq<u8>|
        in_dir(k, dst) implies (m1.dom().contains(src + k.skip(dst.len() as int))
        == m.dom().contains(src + k.skip(dst.len() as int)) && (m.dom().contains(
        src + k.skip(dst.len() as int),
    ) ==> m1[src + k.skip(dst.len() as int)] == m[src + k.skip(dst.len() as int)])) by {
        let q = k.skip(dst.len() as int);
        assert(q.len() > 0 && q[0] == k[dst.len() as int]);
        lemma_extension_outside(src, dst, q);
    }
    assert(graft(m1, src, dst) =~= graft(m, src, dst));
}

/// Law: a backup of the home directory followed by a restore from that
/// backup reproduces the exact file set and byte contents under the home
/// directory, whatever nested subdirectories and empty files it held.
pub proof fn lemma_backup_restore_round_trip(m: Map<Seq<u8>, Seq<u8>>, home: Seq<u8>, bak: Seq<u8>)
    requires
        dirs_separate(home, bak),
    ensures
        ({
            let m2 = graft(graft(m, home, bak), bak, home);
            forall|k: Seq<u8>|
                in_dir(k, home) ==> ((#[trigger] m2.dom().contains(k)) <==> m.dom().contains(k))
                    && (m.dom().contains(k) ==> m2[k] == m[k])
        }),
{
    let m1 = graft(m, home, bak);
    let m2 = graft(m1, bak, home);
    assert forall|k: Seq<u8>| in_dir(k, home) implies ((#[trigger] m2.dom().contains(k))
        <==> m.dom().contains(k)) && (m.dom().contains(k) ==> m2[k] == m[k]) by {
        let q = k.skip(home.len() as int);
        assert(q.len() > 0 && q[0] == k[home.len() as int]);
        let kb = bak + q;
        lemma_concat_in_dir(bak, q);
        lemma_concat_skip(bak, q);
        lemma_dir_join(k, home);
        if in_dir(k, bak) {
            lemma_in_dir_nested(k, home, bak);
        }
        assert(m2.dom().contains(k) == m1.dom().contains(kb));
        assert(m1.dom().contains(kb) == m.dom().contains(home + kb.skip(bak.len() as int)));
        assert(home + kb.skip(bak.len() as int) == k);
        if m.dom().contains(k) {
            assert(m2[k] == m1[kb]);
            assert(m1[kb] == m[k]);
        }
    }
}

/// Splitting a path inside a directory at the directory's length and
/// rejoining it gives the path back.
proof fn lemma_dir_join(p: Seq<u8>, d: Seq<u8>)
    requires
        in_dir(p, d),
    ensures
        d + p.skip(d.len() as int) == p,
{
    assert(d + p.skip(d.len() as int) =~= p);
}

/// Appending to a directory and skipping its length gives the appended part
/// back.
proof fn lemma_concat_skip(a: Seq<u8>, b: Seq<u8>)
    ensures
        (a + b).skip(a.len() as int) == b,
{
    assert((a + b).skip(a.len() as int) =~= b);
}

/// A grafted key `d + rest` with `rest` starting at a separator lies inside
/// `d`.
proof fn lemma_concat_in_dir(d: Seq<u8>, q: Seq<u8>)
    requires
        q.len() > 0,
        q[0] == slash(),
    ensures
        in_dir(d + q, d),
{
    assert((d + q).subrange(0, d.len() as int) =~= d);
}

/// A source key extended from `src` never lies inside a separate directory
/// `dst`.
proof fn lemma_extension_outside(src: Seq<u8>, dst: Seq<u8>, q: Seq<u8>)
    requires
        dirs_separate(src, dst),
        q.len() > 0,
        q[0] == slash(),
    ensures
        !in_dir(src + q, dst),
{
    let p = src + q;
    if in_dir(p, dst) {
        if dst.len() == src.len() {
            assert(dst =~= src);
        } else if dst.len() < src.len() {
            assert(src.subrange(0, dst.len() as int) =~= dst);
            assert(src[dst.len() as int] == p[dst.len() as int]);
            assert(in_dir(src, dst));
        } else {
            assert(dst.subrange(0, src.len() as int) =~= src);
            assert(dst[src.len() as int] == p[src.len() as int]);
            assert(p[src.len() as int] == q[0]);
            assert(in_dir(dst, src));
        }
    }
}

/// `base` extended with one copied entry `dst/rest` for each entry
/// `src/rest` among the given source entries, in order.
spec fn with_copies(
    base: Map<Seq<u8>, Seq<u8>>,
    s: Seq<FsFile>,
    src: Seq<u8>,
    dst: Seq<u8>,
) -> Map<Seq<u8>, Seq<u8>>
    decreases s.len(),
{
    if s.len() == 0 {
        base
    } else {
        let prev = with_copies(base, s.drop_last(), src, dst);
        if in_dir(s.last().path@, src) {
            prev.insert(dst + s.last().path@.skip(src.len() as int), s.last().data@)
        } else {
            prev
        }
    }
}

/// `k` is the grafted image of some source entry's path.
spec fn copied_key(s: Seq<FsFile>, src: Seq<u8>, dst: Seq<u8>, k: Seq<u8>) -> bool {
    exists|j: int|
        0 <= j < s.len() && in_dir(#[trigger] s[j].path@, src) && k == dst + s[j].path@.skip(
            src.len() as int,
        )
}

/// What [`with_copies`] builds, stated without recursion: the base map,
/// overwritten at every grafted image of a source entry by the bytes the
/// base holds at the corresponding source path.
proof fn lemma_with_copies_graft(
    m: Map<Seq<u8>, Seq<u8>>,
    s: Seq<FsFile>,
    src: Seq<u8>,
    dst: Seq<u8>,
)
    requires
        unique_paths(s),
        forall|i: int|
            0 <= i < s.len() ==> m.dom().contains(#[trigger] s[i].path@) && m[s[i].path@]
                == s[i].data@,
    ensures
        with_copies(m, s, src, dst) == Map::new(
            |k: Seq<u8>| m.dom().contains(k) || copied_key(s, src, dst, k),
            |k: Seq<u8>|
                if copied_key(s, src, dst, k) {
                    m[src + k.skip(dst.len() as int)]
                } else {
                    m[k]
                },
        ),
    decreases s.len(),
{
    let target = Map::new(
        |k: Seq<u8>| m.dom().contains(k) || copied_key(s, src, dst, k),
        |k: Seq<u8>|
            if copied_key(s, src, dst, k) {
                m[src + k.skip(dst.len() as int)]
            } else {
                m[k]
            },
    );
    if s.len() == 0 {
        assert(with_copies(m, s, src, dst) =~= target);
    } else {
        let t = s.drop_last();
        let e = s.last();
        assert forall|a: int, b: int| 0 <= a < b < t.len() implies t[a].path@ != t[b].path@ by {
            assert(s[a].path@ != s[b].path@);
        }
        assert forall|i: int|
            0 <= i < t.len() implies m.dom().contains(#[trigger] t[i].path@) && m[t[i].path@]
            == t[i].data@ by {
            assert(t[i] == s[i]);
        }
        lemma_with_copies_graft(m, t, src, dst);
        let prevtarget = Map::new(
            |k: Seq<u8>| m.dom().contains(k) || copied_key(t, src, dst, k),
            |k: Seq<u8>|
                if copied_key(t, src, dst, k) {
                    m[src + k.skip(dst.len() as int)]
                } else {
                    m[k]
                },
        );
        assert forall|k: Seq<u8>| #[trigger]
            copied_key(t, src, dst, k) implies copied_key(s, src, dst, k) by {
            let j = choose|j: int|
                0 <= j < t.len() && in_dir(#[trigger] t[j].path@, src) && k == dst
                    + t[j].path@.skip(src.len() as int);
            assert(s[j] == t[j]);
            assert(in_dir(s[j].path@, src) && k == dst + s[j].path@.skip(src.len() as int));
        }
        if in_dir(e.path@, src) {
            let k0 = dst + e.path@.skip(src.len() as int);
            lemma_concat_skip(dst, e.path@.skip(src.len() as int));
            lemma_dir_join(e.path@, src);
            assert(s[s.len() - 1] == e);
            assert(copied_key(s, src, dst, k0));
            assert(m[src + k0.skip(dst.len() as int)] == e.data@);
            assert forall|k: Seq<u8>|
                k != k0 && #[trigger] copied_key(s, src, dst, k) implies copied_key(
                t,
                src,
                dst,
                k,
            ) by {
                let j = choose|j: int|
                    0 <= j < s.len() && in_dir(#[trigger] s[j].path@, src) && k == dst
                        + s[j].path@.skip(src.len() as int);
                assert(j < s.len() - 1);
                assert(t[j] == s[j]);
                assert(in_dir(t[j].path@, src) && k == dst + t[j].path@.skip(src.len() as int));
            }
            assert forall|k: Seq<u8>|
                k != k0 && #[trigger] copied_key(s, src, dst, k) implies target[k]
                == prevtarget[k] by {
            }
            assert(with_copies(m, s, src, dst) =~= target);
        } else {
            assert forall|k: Seq<u8>| #[trigger]
                copied_key(s, src, dst, k) implies copied_key(t, src, dst, k) by {
                let j = choose|j: int|
                    0 <= j < s.len() && in_dir(#[trigger] s[j].path@, src) && k == dst
                        + s[j].path@.skip(src.len() as int);
                assert(j < s.len() - 1);
                assert(t[j] == s[j]);
                assert(in_dir(t[j].path@, src) && k == dst + t[j].path@.skip(src.len() as int));
            }
            assert(with_copies(m, s, src, dst) =~= target);
        }
    }
}

/// Joins `d` with the tail of `p` from byte `from` on.
fn concat_suffix(d: &[u8], p: &[u8], from: usize) -> (r: Vec<u8>)
    requires
        from <= p@.len(),
    ensures
        r@ == d@ + p@.skip(from as int),
{
    let mut r = slice_to_vec(d);
    let n = p.len();
    let mut i: usize = from;
    while i < n
        invariant
            from <= i <= n,
            n == p@.len(),
            r@ == d@ + p@.subrange(from as int, i as int),
        decreases n - i,
    {
        r.push(p[i]);
        proof {
            assert(d@ + p@.subrange(from as int, i + 1) =~= (d@ + p@.subrange(
                from as int,
                i as int,
            )).push(p@[i as int]));
        }
        i += 1;
    }
    proof {
        assert(p@.subrange(from as int, n as int) =~= p@.skip(from as int));
    }
    r
}

/// Executable twin of [`in_dir`].
fn path_in_dir(p: &[u8], d: &[u8]) -> (r: bool)
    ensures
        r == in_dir(p@, d@),
{
    if d.len() < p.len() && crate::text::starts_with(p, d) {
        p[d.len()] == 47
    } else {
        false
    }
}

} // verus!
