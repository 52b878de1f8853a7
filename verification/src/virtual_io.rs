//! The in-memory filesystem double: the same operation set and error
//! domain as the real synchronous access layer, backed by the sorted entry
//! map of [`crate::vfs`] instead of a platform.

use vstd::prelude::*;

use crate::error::{
    invalid_input, not_found, spec_invalid_input, spec_not_found, IoError, IoErrorKind,
};
use crate::vfs::{
    check_path, parent_dir, path_ok, read_at, rfind_slash, rfind_slash_exec, write_at, Entity,
    EntityView, FileSystem, FsEntry, Metadata, VecRef,
};
use crate::text::utf8_to_string;
use crate::Instant;

verus! {

/// The description of an entity, derived from its value.
pub open spec fn metadata_of(e: EntityView) -> Metadata {
    match e {
        EntityView::Dir => Metadata { len: 0, is_dir: true },
        EntityView::File(c) => Metadata { len: c.len() as u64, is_dir: false },
    }
}

/// The test for sitting directly inside the directory `d`: the entry's
/// directory part is exactly `d`.
pub open spec fn in_dir_pred(d: Seq<char>) -> spec_fn(FsEntry) -> bool {
    |e: FsEntry| parent_dir(e.key@) == Some(d)
}

/// The test for sitting directly inside `d` and being, or not being, a
/// directory.
pub open spec fn in_dir_type_pred(d: Seq<char>, is_dir: bool) -> spec_fn(FsEntry) -> bool {
    |e: FsEntry| parent_dir(e.key@) == Some(d) && metadata_of(e.value@).is_dir == is_dir
}

/// True of the keys that recording the directory chain of `p` touches
/// while the scan stands before position `i`: every prefix of `p` cut at a
/// separator before `i`.
pub open spec fn cut_below(p: Seq<char>, i: int, k: Seq<char>) -> bool {
    exists|j: int| 0 <= j < i && p[j] == '/' && k == p.subrange(0, j)
}

/// True of the keys that recording the directory chain of `p` makes into
/// directories: every prefix of `p` cut at a separator, and `p` itself.
pub open spec fn is_dir_cut(p: Seq<char>, k: Seq<char>) -> bool {
    k == p || cut_below(p, p.len() as int, k)
}

/// True when the path's directory part, if it has one, names a directory.
pub open spec fn parent_ok(fs: &FileSystem, p: Seq<char>) -> bool {
    match parent_dir(p) {
        Some(d) => fs.lookup(d) == Some(EntityView::Dir),
        None => true,
    }
}

/// One entry of a directory listing.
#[derive(Debug)]
pub struct DirEntry {
    path: String,
    metadata: Metadata,
}

impl DirEntry {
    /// The full path of the listed entity.
    pub closed spec fn spec_path(&self) -> Seq<char> {
        self.path@
    }

    /// The description of the listed entity.
    pub closed spec fn spec_metadata(&self) -> Metadata {
        self.metadata
    }

    /// The full path of the listed entity.
    pub fn path(&self) -> (r: String)
        ensures
            r@ == self.spec_path(),
    {
        self.path.clone()
    }

    /// The description of the listed entity.
    pub fn metadata(&self) -> (r: Result<Metadata, IoError>)
        ensures
            r == Ok::<Metadata, IoError>(self.spec_metadata()),
    {
        Ok(self.metadata)
    }

    /// The path's last component: what follows its last separator.
    pub fn file_name(&self) -> (r: String)
        ensures
            match rfind_slash(self.spec_path()) {
                Some(i) => r@ == self.spec_path().subrange(i + 1, self.spec_path().len() as int),
                None => r@ == self.spec_path(),
            },
    {
        match rfind_slash_exec(self.path.as_str()) {
            Some(i) => {
                let n = self.path.as_str().unicode_len();
                let s = self.path.as_str().substring_char(i + 1, n);
                String::from_str(s)
            },
            None => self.path.clone(),
        }
    }
}

impl crate::traits::DirEntry for DirEntry {
    type Metadata = Metadata;

    fn path(&self) -> String {
        self.path.clone()
    }

    fn metadata(&self) -> Result<Metadata, IoError> {
        Ok(self.metadata)
    }

    fn file_name(&self) -> String {
        match rfind_slash_exec(self.path.as_str()) {
            Some(i) => {
                let n = self.path.as_str().unicode_len();
                String::from_str(self.path.as_str().substring_char(i + 1, n))
            },
            None => self.path.clone(),
        }
    }
}

/// The virtual environment: process arguments, a filesystem, a captured
/// standard output, and a deterministic clock.
pub struct VirtualIo {
    /// The virtual process arguments, the invoked identity first.
    pub args: Vec<String>,
    /// The virtual filesystem.
    pub fs: FileSystem,
    /// The captured standard output.
    pub stdout: VecRef,
    /// The clock: how many milliseconds have been handed out.
    pub duration: u64,
}

impl VirtualIo {
    /// True while the filesystem invariant holds; established by `new` and
    /// preserved by every operation.
    pub open spec fn wf(&self) -> bool {
        self.fs.wf()
    }

    /// A fresh environment: the given arguments behind the default invoked
    /// identity, an empty filesystem, nothing printed, the clock at zero.
    pub fn new(args: &[&str]) -> (r: VirtualIo)
        ensures
            r.wf(),
            r.args@.len() == args@.len() + 1,
            r.args@[0]@ == "blockset"@,
            forall|i: int| 0 <= i < args@.len() ==> r.args@[i + 1]@ == args@[i]@,
            r.fs.entries_seq() == Seq::<FsEntry>::empty(),
            r.stdout@ == Seq::<u8>::empty(),
            r.duration == 0,
    {
        let mut a: Vec<String> = Vec::new();
        a.push(String::from_str("blockset"));
        let n = args.len();
        let mut i: usize = 0;
        while i < n
            invariant
                i <= n,
                n == args@.len(),
                a@.len() == i + 1,
                a@[0]@ == "blockset"@,
                forall|k: int| 0 <= k < i ==> a@[k + 1]@ == args@[k]@,
            decreases n - i,
        {
            a.push(String::from_str(args[i]));
            i += 1;
        }
        VirtualIo {
            args: a,
            fs: FileSystem::default(),
            stdout: VecRef::default(),
            duration: 0,
        }
    }

    /// A copy of the virtual process arguments.
    pub fn args(&self) -> (r: Vec<String>)
        ensures
            r@.len() == self.args@.len(),
            forall|i: int| 0 <= i < r@.len() ==> r@[i]@ == self.args@[i]@,
    {
        let mut a: Vec<String> = Vec::new();
        let n = self.args.len();
        let mut i: usize = 0;
        while i < n
            invariant
                i <= n,
                n == self.args@.len(),
                a@.len() == i,
                forall|k: int| 0 <= k < i ==> a@[k]@ == self.args@[k]@,
            decreases n - i,
        {
            a.push(self.args[i].clone());
            i += 1;
        }
        a
    }

    /// Describe what a path names. A trailing separator is allowed, and
    /// then the path must name a directory; a path naming nothing is
    /// not found.
    pub fn metadata(&self, path: &str) -> (r: Result<Metadata, IoError>)
        requires
            self.wf(),
        ensures
            ({
                let p = path@;
                let dir_end = p.len() > 0 && p[p.len() - 1] == '/';
                let q = if dir_end {
                    p.subrange(0, p.len() - 1)
                } else {
                    p
                };
                match self.fs.lookup(q) {
                    Some(EntityView::Dir) => r == Ok::<Metadata, IoError>(
                        Metadata { len: 0, is_dir: true },
                    ),
                    Some(EntityView::File(c)) => if dir_end {
                        r == Err::<Metadata, IoError>(spec_not_found())
                    } else {
                        r == Ok::<Metadata, IoError>(
                            Metadata { len: c.len() as u64, is_dir: false },
                        )
                    },
                    None => r == Err::<Metadata, IoError>(spec_not_found()),
                }
            }),
    {
        let n = path.unicode_len();
        let dir_end = n > 0 && path.get_char(n - 1) == '/';
        let key: &str = if dir_end {
            path.substring_char(0, n - 1)
        } else {
            path
        };
        match self.fs.get(key) {
            Some(e) => {
                let m = e.metadata();
                if !m.is_dir() && dir_end {
                    Err(not_found())
                } else {
                    Ok(m)
                }
            },
            None => Err(not_found()),
        }
    }

    /// Create (or truncate) a file. The parent directory must exist and
    /// the path must hold only allowed characters; the new file is empty
    /// and the returned handle stands at its start.
    pub fn create(&mut self, path: &str) -> (r: Result<MemFile, IoError>)
        requires
            old(self).wf(),
        ensures
            final(self).wf(),
            final(self).args@ == old(self).args@,
            final(self).stdout@ == old(self).stdout@,
            final(self).duration == old(self).duration,
            !parent_ok(&old(self).fs, path@) ==> r == Err::<MemFile, IoError>(spec_not_found())
                && final(self).fs == old(self).fs,
            parent_ok(&old(self).fs, path@) && !path_ok(path@) ==> r == Err::<MemFile, IoError>(
                spec_invalid_input(),
            ) && final(self).fs == old(self).fs,
            parent_ok(&old(self).fs, path@) && path_ok(path@) ==> match r {
                Ok(f) => f.spec_path() == path@ && f.spec_pos() == 0 && final(self).fs.lookup(
                    path@,
                ) == Some(EntityView::File(Seq::<u8>::empty())) && (forall|k: Seq<char>|
                    k != path@ ==> #[trigger] final(self).fs.lookup(k) == old(self).fs.lookup(k)),
                Err(_) => false,
            },
    {
        if let Err(e) = self.fs.check_parent(path) {
            return Err(e);
        }
        if let Err(e) = check_path(path) {
            return Err(e);
        }
        self.fs.insert(path, Entity::File(VecRef::default()));
        Ok(MemFile::new(path))
    }

    /// Record a directory under the path, replacing whatever the path
    /// named before; never fails.
    pub fn create_dir(&mut self, path: &str) -> (r: Result<(), IoError>)
        requires
            old(self).wf(),
        ensures
            final(self).wf(),
            final(self).args@ == old(self).args@,
            final(self).stdout@ == old(self).stdout@,
            final(self).duration == old(self).duration,
            r == Ok::<(), IoError>(()),
            final(self).fs.lookup(path@) == Some(EntityView::Dir),
            forall|k: Seq<char>|
                k != path@ ==> #[trigger] final(self).fs.lookup(k) == old(self).fs.lookup(k),
    {
        self.fs.insert(path, Entity::Dir);
        Ok(())
    }

    /// Open an existing file for reading; the returned handle stands at
    /// its start. The parent directory must exist, the path must hold only
    /// allowed characters, and the path must name a file.
    pub fn open(&self, path: &str) -> (r: Result<MemFile, IoError>)
        requires
            self.wf(),
        ensures
            !parent_ok(&self.fs, path@) ==> r == Err::<MemFile, IoError>(spec_not_found()),
            parent_ok(&self.fs, path@) && !path_ok(path@) ==> r == Err::<MemFile, IoError>(
                spec_invalid_input(),
            ),
            parent_ok(&self.fs, path@) && path_ok(path@) ==> match r {
                Ok(f) => f.spec_path() == path@ && f.spec_pos() == 0 && self.fs.lookup(path@)
                    is Some && self.fs.lookup(path@)->0 is File,
                Err(e) => e == spec_not_found() && !(self.fs.lookup(path@) is Some
                    && self.fs.lookup(path@)->0 is File),
            },
    {
        if let Err(e) = self.fs.check_parent(path) {
            return Err(e);
        }
        if let Err(e) = check_path(path) {
            return Err(e);
        }
        match self.fs.get(path) {
            Some(e) => match e {
                Entity::File(_) => Ok(MemFile::new(path)),
                Entity::Dir => Err(not_found()),
            },
            None => Err(not_found()),
        }
    }

    /// A copy of everything printed to the virtual standard output so far.
    pub fn stdout(&self) -> (r: VecRef)
        ensures
            r@ == self.stdout@,
    {
        self.stdout.clone()
    }

    /// Print to the virtual standard output: the bytes land in the
    /// environment's capture buffer, where later `stdout` readings see
    /// them.
    pub fn stdout_write(&mut self, buf: &[u8]) -> (r: Result<usize, IoError>)
        ensures
            final(self).stdout@ == old(self).stdout@ + buf@,
            final(self).args@ == old(self).args@,
            final(self).fs == old(self).fs,
            final(self).duration == old(self).duration,
            r == Ok::<usize, IoError>(buf@.len() as usize),
    {
        self.stdout.write(buf)
    }

    /// The virtual clock: each reading is one millisecond after the one
    /// before.
    pub fn now(&mut self) -> (r: Instant)
        requires
            old(self).duration < u64::MAX,
        ensures
            r.millis == old(self).duration,
            final(self).duration == old(self).duration + 1,
            final(self).args@ == old(self).args@,
            final(self).stdout@ == old(self).stdout@,
            final(self).fs == old(self).fs,
    {
        let r = Instant { millis: self.duration };
        self.duration = self.duration + 1;
        r
    }

    /// The virtual working directory, which is always the empty path.
    pub fn current_dir(&self) -> (r: Result<String, IoError>)
        ensures
            match r {
                Ok(s) => s@ == Seq::<char>::empty(),
                Err(_) => false,
            },
    {
        Ok(String::new())
    }

    /// Read a whole file: the bytes under the path, subject to the same
    /// checks as opening it.
    pub fn read(&self, path: &str) -> (r: Result<Vec<u8>, IoError>)
        requires
            self.wf(),
        ensures
            !parent_ok(&self.fs, path@) ==> r == Err::<Vec<u8>, IoError>(spec_not_found()),
            parent_ok(&self.fs, path@) && !path_ok(path@) ==> r == Err::<Vec<u8>, IoError>(
                spec_invalid_input(),
            ),
            parent_ok(&self.fs, path@) && path_ok(path@) ==> match self.fs.lookup(path@) {
                Some(EntityView::File(c)) => match r {
                    Ok(v) => v@ == c,
                    Err(_) => false,
                },
                _ => r == Err::<Vec<u8>, IoError>(spec_not_found()),
            },
    {
        match self.open(path) {
            Err(e) => Err(e),
            Ok(_f) => match self.fs.get(path) {
                Some(e) => match e {
                    Entity::File(v) => Ok(v.to_vec()),
                    Entity::Dir => Err(not_found()),
                },
                None => Err(not_found()),
            },
        }
    }

    /// Read a whole file as text. Bytes that are not valid UTF-8 are
    /// invalid data, not text.
    pub fn read_to_string(&self, path: &str) -> (r: Result<String, IoError>)
        requires
            self.wf(),
        ensures
            !parent_ok(&self.fs, path@) ==> r == Err::<String, IoError>(spec_not_found()),
            parent_ok(&self.fs, path@) && !path_ok(path@) ==> r == Err::<String, IoError>(
                spec_invalid_input(),
            ),
            parent_ok(&self.fs, path@) && path_ok(path@) ==> match self.fs.lookup(path@) {
                Some(EntityView::File(c)) => if vstd::utf8::valid_utf8(c) {
                    match r {
                        Ok(s) => vstd::utf8::encode_utf8(s@) == c,
                        Err(_) => false,
                    }
                } else {
                    r == Err::<String, IoError>(crate::error::spec_invalid_data())
                },
                _ => r == Err::<String, IoError>(spec_not_found()),
            },
    {
        match self.read(path) {
            Err(e) => Err(e),
            Ok(v) => match utf8_to_string(v) {
                Some(s) => Ok(s),
                None => Err(crate::error::invalid_data()),
            },
        }
    }

    /// Create the file under the path and fill it with the given bytes.
    pub fn write(&mut self, path: &str, data: &[u8]) -> (r: Result<(), IoError>)
        requires
            old(self).wf(),
        ensures
            final(self).wf(),
            final(self).args@ == old(self).args@,
            final(self).stdout@ == old(self).stdout@,
            final(self).duration == old(self).duration,
            !parent_ok(&old(self).fs, path@) ==> r == Err::<(), IoError>(spec_not_found())
                && final(self).fs == old(self).fs,
            parent_ok(&old(self).fs, path@) && !path_ok(path@) ==> r == Err::<(), IoError>(
                spec_invalid_input(),
            ) && final(self).fs == old(self).fs,
            parent_ok(&old(self).fs, path@) && path_ok(path@) ==> r == Ok::<(), IoError>(())
                && final(self).fs.lookup(path@) == Some(EntityView::File(data@)) && (forall|
                k: Seq<char>,
            |
                k != path@ ==> #[trigger] final(self).fs.lookup(k) == old(self).fs.lookup(k)),
    {
        let n = data.len();
        let mut f = match self.create(path) {
            Ok(f) => f,
            Err(e) => {
                return Err(e);
            },
        };
        match f.write(self, data) {
            Ok(_) => {
                proof {
                    assert(write_at(Seq::<u8>::empty(), 0, data@) =~= data@);
                }
                Ok(())
            },
            Err(e) => Err(e),
        }
    }

    /// List what a directory holds: every entry whose path sits directly
    /// under the given one, in the filesystem's sorted order.
    pub fn read_dir(&self, path: &str) -> (r: Result<Vec<DirEntry>, IoError>)
        requires
            self.wf(),
        ensures
            self.fs.lookup(path@) != Some(EntityView::Dir) ==> r == Err::<Vec<DirEntry>, IoError>(
                spec_not_found(),
            ),
            self.fs.lookup(path@) == Some(EntityView::Dir) ==> match r {
                Ok(v) => {
                    let ch = self.fs.entries_seq().filter(in_dir_pred(path@));
                    v@.len() == ch.len() && (forall|i: int|
                        0 <= i < ch.len() ==> (#[trigger] v@[i]).spec_path() == ch[i].key@
                            && v@[i].spec_metadata() == metadata_of(ch[i].value@))
                },
                Err(_) => false,
            },
    {
        if let Err(e) = self.fs.check_dir(path) {
            return Err(e);
        }
        let n = self.fs.entry_count();
        let mut out: Vec<DirEntry> = Vec::new();
        proof {
            reveal(Seq::filter);
        }
        let mut i: usize = 0;
        while i < n
            invariant
                i <= n,
                n == self.fs.entries_seq().len(),
                self.wf(),
                ({
                    let ch = self.fs.entries_seq().subrange(0, i as int).filter(
                        in_dir_pred(path@),
                    );
                    out@.len() == ch.len() && (forall|t: int|
                        0 <= t < ch.len() ==> (#[trigger] out@[t]).spec_path() == ch[t].key@
                            && out@[t].spec_metadata() == metadata_of(ch[t].value@))
                }),
            decreases n - i,
        {
            let ghost pre = self.fs.entries_seq().subrange(0, i as int);
            let ghost pre1 = self.fs.entries_seq().subrange(0, i + 1);
            let ent = self.fs.entry_at(i);
            let matches: bool = match rfind_slash_exec(ent.key.as_str()) {
                Some(j) => {
                    let d = ent.key.as_str().substring_char(0, j);
                    crate::text::str_eq(d, path)
                },
                None => false,
            };
            proof {
                assert(matches == in_dir_pred(path@)(self.fs.entries_seq()[i as int]));
                assert(pre1.drop_last() =~= pre);
                assert(pre1.last() == self.fs.entries_seq()[i as int]);
            }
            if matches {
                let m = ent.value.metadata();
                out.push(DirEntry { path: ent.key.clone(), metadata: m });
            }
            proof {
                reveal(Seq::filter);
                let ch1 = pre1.filter(in_dir_pred(path@));
                let ch = pre.filter(in_dir_pred(path@));
                if in_dir_pred(path@)(pre1.last()) {
                    assert(ch1 == ch.push(pre1.last()));
                } else {
                    assert(ch1 == ch);
                }
            }
            i += 1;
        }
        proof {
            assert(self.fs.entries_seq().subrange(0, n as int) =~= self.fs.entries_seq());
        }
        Ok(out)
    }

    /// List the entries of a directory that are, or are not, themselves
    /// directories.
    pub fn read_dir_type(&self, path: &str, is_dir: bool) -> (r: Result<Vec<DirEntry>, IoError>)
        requires
            self.wf(),
        ensures
            self.fs.lookup(path@) != Some(EntityView::Dir) ==> r == Err::<Vec<DirEntry>, IoError>(
                spec_not_found(),
            ),
            self.fs.lookup(path@) == Some(EntityView::Dir) ==> match r {
                Ok(v) => {
                    let ch = self.fs.entries_seq().filter(in_dir_type_pred(path@, is_dir));
                    v@.len() == ch.len() && (forall|i: int|
                        0 <= i < ch.len() ==> (#[trigger] v@[i]).spec_path() == ch[i].key@
                            && v@[i].spec_metadata() == metadata_of(ch[i].value@))
                },
                Err(_) => false,
            },
    {
        if let Err(e) = self.fs.check_dir(path) {
            return Err(e);
        }
        let n = self.fs.entry_count();
        let mut out: Vec<DirEntry> = Vec::new();
        proof {
            reveal(Seq::filter);
        }
        let mut i: usize = 0;
        while i < n
            invariant
                i <= n,
                n == self.fs.entries_seq().len(),
                self.wf(),
                ({
                    let ch = self.fs.entries_seq().subrange(0, i as int).filter(
                        in_dir_type_pred(path@, is_dir),
                    );
                    out@.len() == ch.len() && (forall|t: int|
                        0 <= t < ch.len() ==> (#[trigger] out@[t]).spec_path() == ch[t].key@
                            && out@[t].spec_metadata() == metadata_of(ch[t].value@))
                }),
            decreases n - i,
        {
            let ghost pre = self.fs.entries_seq().subrange(0, i as int);
            let ghost pre1 = self.fs.entries_seq().subrange(0, i + 1);
            let ent = self.fs.entry_at(i);
            let in_d: bool = match rfind_slash_exec(ent.key.as_str()) {
                Some(j) => {
                    let d = ent.key.as_str().substring_char(0, j);
                    crate::text::str_eq(d, path)
                },
                None => false,
            };
            let m = ent.value.metadata();
            let matches = in_d && m.is_dir() == is_dir;
            proof {
                assert(matches == in_dir_type_pred(path@, is_dir)(
                    self.fs.entries_seq()[i as int],
                ));
                assert(pre1.drop_last() =~= pre);
                assert(pre1.last() == self.fs.entries_seq()[i as int]);
            }
            if matches {
                out.push(DirEntry { path: ent.key.clone(), metadata: m });
            }
            proof {
                reveal(Seq::filter);
                let ch1 = pre1.filter(in_dir_type_pred(path@, is_dir));
                let ch = pre.filter(in_dir_type_pred(path@, is_dir));
                if in_dir_type_pred(path@, is_dir)(pre1.last()) {
                    assert(ch1 == ch.push(pre1.last()));
                } else {
                    assert(ch1 == ch);
                }
            }
            i += 1;
        }
        proof {
            assert(self.fs.entries_seq().subrange(0, n as int) =~= self.fs.entries_seq());
        }
        Ok(out)
    }

    /// Record a directory at every prefix of the path that ends at a
    /// separator, and at the path itself, in order; never fails.
    pub fn create_dir_recursively(&mut self, path: &str) -> (r: Result<(), IoError>)
        requires
            old(self).wf(),
        ensures
            final(self).wf(),
            final(self).args@ == old(self).args@,
            final(self).stdout@ == old(self).stdout@,
            final(self).duration == old(self).duration,
            r == Ok::<(), IoError>(()),
            forall|k: Seq<char>|
                #[trigger] final(self).fs.lookup(k) == if is_dir_cut(path@, k) {
                    Some(EntityView::Dir)
                } else {
                    old(self).fs.lookup(k)
                },
    {
        let n = path.unicode_len();
        let mut i: usize = 0;
        while i < n
            invariant
                i <= n,
                n == path@.len(),
                self.wf(),
                self.args@ == old(self).args@,
                self.stdout@ == old(self).stdout@,
                self.duration == old(self).duration,
                forall|k: Seq<char>|
                    #[trigger] self.fs.lookup(k) == if cut_below(path@, i as int, k) {
                        Some(EntityView::Dir)
                    } else {
                        old(self).fs.lookup(k)
                    },
            decreases n - i,
        {
            if path.get_char(i) == '/' {
                let ghost pre = self.fs;
                let d = path.substring_char(0, i);
                let _ = self.create_dir(d);
                proof {
                    assert forall|k: Seq<char>|
                        #[trigger] self.fs.lookup(k) == if cut_below(path@, i + 1, k) {
                            Some(EntityView::Dir)
                        } else {
                            old(self).fs.lookup(k)
                        } by {
                        if k == d@ {
                            assert(cut_below(path@, i + 1, k));
                        } else {
                            assert(self.fs.lookup(k) == pre.lookup(k));
                            if cut_below(path@, i + 1, k) {
                                let j = choose|j: int|
                                    0 <= j < i + 1 && path@[j] == '/' && k == path@.subrange(0, j);
                                assert(j != i);
                                assert(cut_below(path@, i as int, k));
                            } else {
                                assert(!cut_below(path@, i as int, k));
                            }
                        }
                    }
                }
            } else {
                proof {
                    assert forall|k: Seq<char>|
                        cut_below(path@, i + 1, k) implies cut_below(path@, i as int, k) by {
                        let j = choose|j: int|
                            0 <= j < i + 1 && path@[j] == '/' && k == path@.subrange(0, j);
                        assert(j != i);
                    }
                }
            }
            i += 1;
        }
        let ghost pre = self.fs;
        let r = self.create_dir(path);
        proof {
            assert forall|k: Seq<char>|
                #[trigger] self.fs.lookup(k) == if is_dir_cut(path@, k) {
                    Some(EntityView::Dir)
                } else {
                    old(self).fs.lookup(k)
                } by {
                if k == path@ {
                } else {
                    assert(self.fs.lookup(k) == pre.lookup(k));
                    assert(is_dir_cut(path@, k) == cut_below(path@, n as int, k));
                }
            }
        }
        r
    }

    /// Write the file, creating its directory chain first if the plain
    /// write fails for want of it. A path without a separator has no
    /// directories to create, so its failure stands.
    pub fn write_recursively(&mut self, path: &str, data: &[u8]) -> (r: Result<(), IoError>)
        requires
            old(self).wf(),
        ensures
            final(self).wf(),
            final(self).args@ == old(self).args@,
            final(self).stdout@ == old(self).stdout@,
            final(self).duration == old(self).duration,
            parent_ok(&old(self).fs, path@) && path_ok(path@) ==> r == Ok::<(), IoError>(())
                && final(self).fs.lookup(path@) == Some(EntityView::File(data@)) && (forall|
                k: Seq<char>,
            |
                k != path@ ==> #[trigger] final(self).fs.lookup(k) == old(self).fs.lookup(k)),
            !(parent_ok(&old(self).fs, path@) && path_ok(path@)) && parent_dir(path@) is None
                ==> r == Err::<(), IoError>(spec_invalid_input()) && final(self).fs == old(
                self,
            ).fs,
            !(parent_ok(&old(self).fs, path@) && path_ok(path@)) && parent_dir(path@) is Some
                ==> ({
                let d = parent_dir(path@)->0;
                &&& r == if path_ok(path@) {
                    Ok::<(), IoError>(())
                } else {
                    Err::<(), IoError>(spec_invalid_input())
                }
                &&& forall|k: Seq<char>|
                    #[trigger] final(self).fs.lookup(k) == if path_ok(path@) && k == path@ {
                        Some(EntityView::File(data@))
                    } else if is_dir_cut(d, k) {
                        Some(EntityView::Dir)
                    } else {
                        old(self).fs.lookup(k)
                    }
            }),
    {
        match self.write(path, data) {
            Ok(_) => Ok(()),
            Err(er) => {
                match rfind_slash_exec(path) {
                    Some(j) => {
                        let d = path.substring_char(0, j);
                        let ghost mid = self.fs;
                        if let Err(e2) = self.create_dir_recursively(d) {
                            return Err(e2);
                        }
                        proof {
                            assert(is_dir_cut(d@, d@));
                            assert(self.fs.lookup(d@) == Some(EntityView::Dir));
                            assert(parent_ok(&self.fs, path@));
                        }
                        self.write(path, data)
                    },
                    None => Err(er),
                }
            },
        }
    }

    /// Only the empty path — the one virtual working directory — can be
    /// changed to.
    pub fn set_current_dir(&self, path: &str) -> (r: Result<(), IoError>)
        ensures
            path@.len() == 0 ==> r == Ok::<(), IoError>(()),
            path@.len() > 0 ==> r == Err::<(), IoError>(
                IoError { code: 0, kind: IoErrorKind::NotFound },
            ),
    {
        if path.is_empty() {
            Ok(())
        } else {
            Err(not_found())
        }
    }
}

/// A handle onto one virtual file: the file's path and a cursor. The
/// filesystem itself is handed to each access, so the handle stays valid
/// however the environment moves around it.
#[derive(Debug)]
pub struct MemFile {
    path: String,
    pos: usize,
}

impl MemFile {
    /// The path of the file the handle addresses.
    pub closed spec fn spec_path(&self) -> Seq<char> {
        self.path@
    }

    /// The cursor: the byte offset the next access starts at.
    pub closed spec fn spec_pos(&self) -> int {
        self.pos as int
    }

    /// A handle onto the file at the given path, with the cursor at the
    /// start.
    pub fn new(path: &str) -> (r: MemFile)
        ensures
            r.spec_path() == path@,
            r.spec_pos() == 0,
    {
        MemFile { path: String::from_str(path), pos: 0 }
    }

    /// Describe the file the handle addresses.
    pub fn metadata(&self, io: &VirtualIo) -> (r: Result<Metadata, IoError>)
        requires
            io.wf(),
        ensures
            match io.fs.lookup(self.spec_path()) {
                Some(EntityView::File(c)) => r == Ok::<Metadata, IoError>(
                    Metadata { len: c.len() as u64, is_dir: false },
                ),
                _ => r == Err::<Metadata, IoError>(spec_not_found()),
            },
    {
        match io.fs.get(self.path.as_str()) {
            Some(e) => match e {
                Entity::File(v) => Ok(v.metadata()),
                Entity::Dir => Err(not_found()),
            },
            None => Err(not_found()),
        }
    }

    /// Move the cursor. A target before the start of the file, or past
    /// the largest representable offset, is rejected and the cursor stays
    /// where it was; seeking relative to the end requires the handle to
    /// address a file.
    pub fn seek(&mut self, io: &VirtualIo, pos: SeekFrom) -> (r: Result<u64, IoError>)
        requires
            io.wf(),
        ensures
            final(self).spec_path() == old(self).spec_path(),
            match pos {
                SeekFrom::Start(x) => if x <= usize::MAX {
                    r == Ok::<u64, IoError>(x) && final(self).spec_pos() == x
                } else {
                    r == Err::<u64, IoError>(spec_invalid_input()) && final(self).spec_pos()
                        == old(self).spec_pos()
                },
                SeekFrom::Current(d) => {
                    let t = old(self).spec_pos() + d;
                    if 0 <= t <= usize::MAX {
                        r == Ok::<u64, IoError>(t as u64) && final(self).spec_pos() == t
                    } else {
                        r == Err::<u64, IoError>(spec_invalid_input()) && final(self).spec_pos()
                            == old(self).spec_pos()
                    }
                },
                SeekFrom::End(d) => match io.fs.lookup(old(self).spec_path()) {
                    Some(EntityView::File(c)) => {
                        let t = c.len() + d;
                        if 0 <= t <= usize::MAX {
                            r == Ok::<u64, IoError>(t as u64) && final(self).spec_pos() == t
                        } else {
                            r == Err::<u64, IoError>(spec_invalid_input())
                                && final(self).spec_pos() == old(self).spec_pos()
                        }
                    },
                    _ => r == Err::<u64, IoError>(spec_not_found()) && final(self).spec_pos()
                        == old(self).spec_pos(),
                },
            },
    {
        match pos {
            SeekFrom::Start(x) => {
                if x <= usize::MAX as u64 {
                    self.pos = x as usize;
                    Ok(x)
                } else {
                    Err(invalid_input())
                }
            },
            SeekFrom::Current(d) => {
                let t: i128 = self.pos as i128 + d as i128;
                if 0 <= t && t <= usize::MAX as i128 {
                    self.pos = t as usize;
                    Ok(t as u64)
                } else {
                    Err(invalid_input())
                }
            },
            SeekFrom::End(d) => {
                match io.fs.get(self.path.as_str()) {
                    Some(e) => match e {
                        Entity::File(v) => {
                            let t: i128 = v.byte_len() as i128 + d as i128;
                            if 0 <= t && t <= usize::MAX as i128 {
                                self.pos = t as usize;
                                Ok(t as u64)
                            } else {
                                Err(invalid_input())
                            }
                        },
                        Entity::Dir => Err(not_found()),
                    },
                    None => Err(not_found()),
                }
            },
        }
    }

    /// Read from the cursor into the front of the buffer: as many bytes
    /// as the buffer holds, capped at what remains before the end of the
    /// file. The cursor advances by the bytes read; at or past the end of
    /// the file nothing is read — end-of-file is not a failure.
    pub fn read(&mut self, io: &VirtualIo, buf: &mut Vec<u8>) -> (r: Result<usize, IoError>)
        requires
            io.wf(),
        ensures
            final(self).spec_path() == old(self).spec_path(),
            match io.fs.lookup(old(self).spec_path()) {
                Some(EntityView::File(c)) => {
                    let got = read_at(c, old(self).spec_pos(), old(buf)@.len() as int);
                    r == Ok::<usize, IoError>(got.len() as usize) && final(self).spec_pos() == old(self).spec_pos() + got.len() && final(buf)@ == got + old(buf)@.subrange(
                        got.len() as int,
                        old(buf)@.len() as int,
                    )
                },
                _ => r == Err::<usize, IoError>(spec_not_found()) && final(self).spec_pos() == old(self).spec_pos() && final(buf)@ == old(buf)@,
            },
    {
        match io.fs.get(self.path.as_str()) {
            Some(e) => match e {
                Entity::File(v) => {
                    let clen = v.byte_len();
                    let m: usize = if self.pos > clen {
                        0
                    } else if buf.len() <= clen - self.pos {
                        buf.len()
                    } else {
                        clen - self.pos
                    };
                    let ghost c = v@;
                    let ghost b0 = buf@;
                    let ghost p = self.pos as int;
                    let mut j: usize = 0;
                    while j < m
                        invariant
                            j <= m,
                            p == self.pos as int,
                            0 <= p,
                            m > 0 ==> p + m <= c.len(),
                            c.len() <= usize::MAX,
                            m <= b0.len(),
                            io.fs.lookup(self.spec_path()) == Some(EntityView::File(c)),
                            c == v@,
                            buf@.len() == b0.len(),
                            forall|t: int| 0 <= t < j ==> buf@[t] == c[p + t],
                            forall|t: int| j <= t < b0.len() ==> buf@[t] == b0[t],
                        decreases m - j,
                    {
                        let by = v.byte_at(self.pos + j);
                        buf[j] = by;
                        j += 1;
                    }
                    self.pos = self.pos + m;
                    proof {
                        let got = read_at(c, p, b0.len() as int);
                        assert(got.len() == m);
                        assert(buf@ =~= got + b0.subrange(m as int, b0.len() as int));
                    }
                    Ok(m)
                },
                Entity::Dir => Err(not_found()),
            },
            None => Err(not_found()),
        }
    }

    /// Write the whole buffer at the cursor, zero-filling any gap between
    /// the old end of the file and the cursor. The cursor advances past
    /// the written bytes.
    pub fn write(&mut self, io: &mut VirtualIo, buf: &[u8]) -> (r: Result<usize, IoError>)
        requires
            old(io).wf(),
            old(self).spec_pos() + buf@.len() <= usize::MAX,
        ensures
            final(io).wf(),
            final(io).args@ == old(io).args@,
            final(io).stdout@ == old(io).stdout@,
            final(io).duration == old(io).duration,
            final(self).spec_path() == old(self).spec_path(),
            match old(io).fs.lookup(old(self).spec_path()) {
                Some(EntityView::File(c)) => r == Ok::<usize, IoError>(buf@.len() as usize)
                    && final(self).spec_pos() == old(self).spec_pos() + buf@.len() && final(io).fs.lookup(old(self).spec_path()) == Some(
                    EntityView::File(write_at(c, old(self).spec_pos(), buf@)),
                ) && (forall|k: Seq<char>|
                    k != old(self).spec_path() ==> #[trigger] final(io).fs.lookup(k) == old(io).fs.lookup(k)),
                _ => r == Err::<usize, IoError>(spec_not_found()) && final(self).spec_pos() == old(self).spec_pos() && final(io).fs == old(io).fs,
            },
    {
        let n = buf.len();
        if io.fs.write_file_at(self.path.as_str(), self.pos, buf) {
            self.pos = self.pos + n;
            Ok(n)
        } else {
            Err(not_found())
        }
    }

    /// Writing lands in the filesystem at once, so there is nothing to
    /// flush.
    pub fn flush(&mut self) -> (r: Result<(), IoError>)
        ensures
            *final(self) == *old(self),
            r == Ok::<(), IoError>(()),
    {
        Ok(())
    }
}

/// Where a seek target is measured from.
#[derive(Clone, Copy, Debug, PartialEq, Eq, Structural)]
pub enum SeekFrom {
    /// An absolute offset from the start of the file.
    Start(u64),
    /// An offset relative to the end of the file.
    End(i64),
    /// An offset relative to the cursor.
    Current(i64),
}

} // verus!
