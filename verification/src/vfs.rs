//! The storage core of the in-memory filesystem double: a map from path to
//! entity, kept as a vector of entries sorted by path, plus the path
//! helpers shared by the access layer.

use vstd::prelude::*;

use crate::error::{not_found, IoError};
use crate::text::{
    lemma_lex_irrefl, lemma_lex_trans, lex_lt, str_cmp, StrOrder,
};

verus! {

/// What a caller may learn about an entity without opening it.
#[derive(Clone, Copy, Debug)]
pub struct Metadata {
    /// The length in bytes; `0` for a directory.
    pub len: u64,
    /// True for a directory, false for a file.
    pub is_dir: bool,
}

impl Metadata {
    /// The entity's length in bytes.
    pub fn len(&self) -> (r: u64)
        ensures
            r == self.len,
    {
        self.len
    }

    /// True exactly when the entity is a directory.
    pub fn is_dir(&self) -> (r: bool)
        ensures
            r == self.is_dir,
    {
        self.is_dir
    }
}

impl crate::traits::Metadata for Metadata {
    fn len(&self) -> u64 {
        self.len
    }

    fn is_dir(&self) -> bool {
        self.is_dir
    }
}

/// A growable byte buffer: the backing store of one virtual file, and the
/// capture buffer of the virtual standard output.
#[derive(Debug)]
pub struct VecRef(Vec<u8>);

impl View for VecRef {
    type V = Seq<u8>;

    closed spec fn view(&self) -> Seq<u8> {
        self.0@
    }
}

impl Default for VecRef {
    /// An empty buffer.
    fn default() -> (r: VecRef)
        ensures
            r@ == Seq::<u8>::empty(),
    {
        VecRef(Vec::new())
    }
}

impl Clone for VecRef {
    /// A copy holding the same bytes.
    fn clone(&self) -> (r: VecRef)
        ensures
            r@ == self@,
    {
        let mut v: Vec<u8> = Vec::new();
        let n = self.0.len();
        let mut i: usize = 0;
        while i < n
            invariant
                i <= n,
                n == self.0@.len(),
                v@ == self.0@.subrange(0, i as int),
            decreases n - i,
        {
            v.push(self.0[i]);
            proof {
                assert(v@ =~= self.0@.subrange(0, i + 1));
            }
            i += 1;
        }
        proof {
            assert(v@ =~= self.0@);
        }
        VecRef(v)
    }
}

impl VecRef {
    /// The buffer's length in bytes.
    pub fn len(&self) -> (r: u64)
        ensures
            r == self@.len(),
    {
        self.0.len() as u64
    }

    /// The buffer described as a file: its length, and not a directory.
    pub fn metadata(&self) -> (r: Metadata)
        ensures
            r == (Metadata { len: self@.len() as u64, is_dir: false }),
    {
        Metadata { len: self.len(), is_dir: false }
    }

    /// Append the given bytes; reports how many were written, which is all
    /// of them.
    pub fn write(&mut self, buf: &[u8]) -> (r: Result<usize, IoError>)
        ensures
            final(self)@ == old(self)@ + buf@,
            r == Ok::<usize, IoError>(buf@.len() as usize),
    {
        self.0.extend_from_slice(buf);
        proof {
            assert(final(self)@ =~= old(self)@ + buf@);
        }
        Ok(buf.len())
    }

    /// Writing is immediate, so there is nothing to flush.
    pub fn flush(&mut self) -> (r: Result<(), IoError>)
        ensures
            *final(self) == *old(self),
            r == Ok::<(), IoError>(()),
    {
        Ok(())
    }

    /// Read one byte.
    pub fn byte_at(&self, i: usize) -> (r: u8)
        requires
            i < self@.len(),
        ensures
            r == self@[i as int],
    {
        self.0[i]
    }

    /// Overwrite one byte.
    pub fn set_byte(&mut self, i: usize, b: u8)
        requires
            i < old(self)@.len(),
        ensures
            final(self)@ == old(self)@.update(i as int, b),
    {
        self.0[i] = b;
    }

    /// Append one byte.
    pub fn push_byte(&mut self, b: u8)
        ensures
            final(self)@ == old(self)@.push(b),
    {
        self.0.push(b);
    }

    /// The buffer's length, as an index.
    pub fn byte_len(&self) -> (r: usize)
        ensures
            r == self@.len(),
    {
        self.0.len()
    }

    /// The buffer's bytes as a plain vector.
    pub fn to_vec(&self) -> (r: Vec<u8>)
        ensures
            r@ == self@,
    {
        let c = self.clone();
        let VecRef(v) = c;
        v
    }

    /// The captured output as text, with backspaces applied: a backspace
    /// steps the cursor back one place, any other byte lands at the cursor
    /// and steps it forward. The rendering must stay within the text — no
    /// backspace before the start — and must come out as valid UTF-8.
    pub fn to_stdout(&self) -> (r: String)
        requires
            render_wf(0, self@),
            vstd::utf8::valid_utf8(stdout_render(self@)),
        ensures
            vstd::utf8::encode_utf8(r@) == stdout_render(self@),
    {
        let n = self.0.len();
        let mut out: Vec<u8> = Vec::new();
        let mut i: usize = 0;
        let mut j: usize = 0;
        proof {
            assert(self@.subrange(0, n as int) =~= self@);
        }
        while j < n
            invariant
                j <= n,
                n == self@.len(),
                i <= out@.len(),
                render_wf(i as int, self@.subrange(j as int, n as int)),
                render_run(Seq::empty(), 0, self@) == render_run(
                    out@,
                    i as int,
                    self@.subrange(j as int, n as int),
                ),
            decreases n - j,
        {
            let ghost suf = self@.subrange(j as int, n as int);
            proof {
                assert(suf[0] == self@[j as int]);
                assert(suf.drop_first() =~= self@.subrange(j + 1, n as int));
            }
            let c = self.0[j];
            if c == 8 {
                i = i - 1;
            } else {
                if i < out.len() {
                    out[i] = c;
                } else {
                    out.push(c);
                    proof {
                        vstd::std_specs::vec::axiom_spec_len(&out);
                    }
                }
                i = i + 1;
            }
            j += 1;
        }
        proof {
            assert(self@.subrange(n as int, n as int) =~= Seq::<u8>::empty());
            assert(stdout_render(self@) == out@);
        }
        match crate::text::utf8_to_string(out) {
            Some(s) => s,
            None => vstd::pervasive::unreached(),
        }
    }
}

/// What one rendered byte does to the output: a backspace steps the
/// cursor back, any other byte lands at the cursor — overwriting inside
/// the text, appending at its end — and steps the cursor forward.
pub open spec fn render_step(out: Seq<u8>, i: int, c: u8) -> (Seq<u8>, int) {
    if c == 8 {
        (out, i - 1)
    } else if i < out.len() {
        (out.update(i, c), i + 1)
    } else {
        (out.push(c), i + 1)
    }
}

/// The output and cursor after rendering a whole byte sequence.
pub open spec fn render_run(out: Seq<u8>, i: int, s: Seq<u8>) -> (Seq<u8>, int)
    decreases s.len(),
{
    if s.len() == 0 {
        (out, i)
    } else {
        let st = render_step(out, i, s[0]);
        render_run(st.0, st.1, s.drop_first())
    }
}

/// What a byte sequence renders to, starting from an empty output.
pub open spec fn stdout_render(s: Seq<u8>) -> Seq<u8> {
    render_run(Seq::empty(), 0, s).0
}

/// True while the rendering never steps the cursor back past the start.
pub open spec fn render_wf(i: int, s: Seq<u8>) -> bool
    decreases s.len(),
{
    s.len() == 0 || (if s[0] == 8 {
        i > 0 && render_wf(i - 1, s.drop_first())
    } else {
        render_wf(i + 1, s.drop_first())
    })
}

/// The contents of a file after writing `data` at byte offset `pos`: the
/// file grows to at least `pos + data.len()` bytes, a gap between the old
/// end and `pos` is zero-filled, and bytes outside the written range keep
/// their old values.
pub open spec fn write_at(content: Seq<u8>, pos: int, data: Seq<u8>) -> Seq<u8>
    recommends
        pos >= 0,
{
    let end = pos + data.len();
    let n = if content.len() >= end {
        content.len() as int
    } else {
        end
    };
    Seq::new(
        n as nat,
        |i: int|
            if pos <= i < end {
                data[i - pos]
            } else if i < content.len() {
                content[i]
            } else {
                0u8
            },
    )
}

/// The bytes a read of up to `n` bytes at offset `pos` yields: what lies
/// between `pos` and the end of the file, capped at `n`; nothing at or
/// past the end of the file.
pub open spec fn read_at(content: Seq<u8>, pos: int, n: int) -> Seq<u8> {
    if 0 <= pos <= content.len() && n >= 0 {
        let m = if n <= content.len() - pos {
            n
        } else {
            content.len() - pos
        };
        Seq::new(m as nat, |i: int| content[pos + i])
    } else {
        Seq::empty()
    }
}

/// Round trip: writing a payload at an offset into an empty file, then
/// reading the payload's length back from the same offset, yields exactly
/// the payload.
pub proof fn lemma_write_read_round_trip(p: Seq<u8>, o: int)
    requires
        o >= 0,
    ensures
        read_at(write_at(Seq::empty(), o, p), o, p.len() as int) == p,
{
    let w = write_at(Seq::empty(), o, p);
    assert(w.len() == o + p.len());
    assert(read_at(w, o, p.len() as int) =~= p);
}

/// Reading at or past the end of a file yields no bytes — end-of-file,
/// never a failure.
pub proof fn lemma_read_past_end(content: Seq<u8>, pos: int, n: int)
    requires
        pos >= content.len(),
    ensures
        read_at(content, pos, n).len() == 0,
{
}

/// What one path names: a directory, or a file with its contents.
#[derive(Debug)]
pub enum Entity {
    /// A directory.
    Dir,
    /// A file and its backing buffer.
    File(VecRef),
}

/// The mathematical value of an entity: a directory, or a file's bytes.
pub enum EntityView {
    /// A directory.
    Dir,
    /// A file's bytes.
    File(Seq<u8>),
}

/// The bytes of a file entity; the empty sequence for a directory.
pub open spec fn entity_bytes(e: EntityView) -> Seq<u8> {
    match e {
        EntityView::Dir => Seq::empty(),
        EntityView::File(c) => c,
    }
}

impl View for Entity {
    type V = EntityView;

    open spec fn view(&self) -> EntityView {
        match self {
            Entity::Dir => EntityView::Dir,
            Entity::File(v) => EntityView::File(v@),
        }
    }
}

impl Default for Entity {
    /// A directory, the kind that path components are made of.
    fn default() -> (r: Entity)
        ensures
            r@ is Dir,
    {
        Entity::Dir
    }
}

impl Entity {
    /// Describe the entity: a directory has length `0`; a file has the
    /// length of its contents.
    pub fn metadata(&self) -> (r: Metadata)
        ensures
            self@ is Dir ==> r == (Metadata { len: 0, is_dir: true }),
            self@ is File ==> r == (Metadata {
                len: entity_bytes(self@).len() as u64,
                is_dir: false,
            }),
    {
        match self {
            Entity::Dir => Metadata { len: 0, is_dir: true },
            Entity::File(x) => x.metadata(),
        }
    }
}

/// One slot of the filesystem: a path and what it names.
#[derive(Debug)]
pub struct FsEntry {
    /// The full path, the entry's key.
    pub key: String,
    /// What the path names.
    pub value: Entity,
}

/// The first entity recorded under the given key, scanning left to right.
pub open spec fn fs_lookup(s: Seq<FsEntry>, k: Seq<char>) -> Option<EntityView>
    decreases s.len(),
{
    if s.len() == 0 {
        None
    } else if s[0].key@ == k {
        Some(s[0].value@)
    } else {
        fs_lookup(s.drop_first(), k)
    }
}

/// The entries are strictly sorted by key, so every key appears at most
/// once.
pub open spec fn fs_sorted(s: Seq<FsEntry>) -> bool {
    forall|i: int, j: int|
        0 <= i < j < s.len() ==> lex_lt(#[trigger] s[i].key@, #[trigger] s[j].key@)
}

/// A key that occurs at a position, and nowhere earlier, is what the
/// lookup finds.
pub proof fn lemma_fs_lookup_at(s: Seq<FsEntry>, k: Seq<char>, i: int)
    requires
        0 <= i < s.len(),
        s[i].key@ == k,
        forall|j: int| 0 <= j < i ==> (#[trigger] s[j].key@) != k,
    ensures
        fs_lookup(s, k) == Some(s[i].value@),
    decreases i,
{
    if i > 0 {
        lemma_fs_lookup_at(s.drop_first(), k, i - 1);
    }
}

/// A key that occurs nowhere is not found.
pub proof fn lemma_fs_lookup_absent(s: Seq<FsEntry>, k: Seq<char>)
    requires
        forall|j: int| 0 <= j < s.len() ==> (#[trigger] s[j].key@) != k,
    ensures
        fs_lookup(s, k) is None,
    decreases s.len(),
{
    if s.len() > 0 {
        lemma_fs_lookup_absent(s.drop_first(), k);
    }
}

/// Inserting an entry under a fresh key makes exactly that key found, and
/// changes no other lookup.
pub proof fn lemma_fs_lookup_insert(s: Seq<FsEntry>, idx: int, e: FsEntry)
    requires
        0 <= idx <= s.len(),
        forall|j: int| 0 <= j < s.len() ==> (#[trigger] s[j].key@) != e.key@,
    ensures
        fs_lookup(s.insert(idx, e), e.key@) == Some(e.value@),
        forall|k: Seq<char>|
            k != e.key@ ==> #[trigger] fs_lookup(s.insert(idx, e), k) == fs_lookup(s, k),
    decreases idx,
{
    let t = s.insert(idx, e);
    if idx == 0 {
        assert(t[0] == e);
        assert(t.drop_first() =~= s);
        assert forall|k: Seq<char>|
            k != e.key@ implies #[trigger] fs_lookup(t, k) == fs_lookup(s, k) by {
            assert(fs_lookup(t, k) == fs_lookup(t.drop_first(), k));
        }
    } else {
        assert(t[0] == s[0]);
        assert(t.drop_first() =~= s.drop_first().insert(idx - 1, e));
        lemma_fs_lookup_insert(s.drop_first(), idx - 1, e);
        assert(s[0].key@ != e.key@);
        assert(fs_lookup(t, e.key@) == fs_lookup(t.drop_first(), e.key@));
        assert forall|k: Seq<char>|
            k != e.key@ implies #[trigger] fs_lookup(t, k) == fs_lookup(s, k) by {
            if s[0].key@ != k {
                assert(fs_lookup(t, k) == fs_lookup(t.drop_first(), k));
                assert(fs_lookup(s, k) == fs_lookup(s.drop_first(), k));
                assert(fs_lookup(t.drop_first(), k) == fs_lookup(s.drop_first(), k));
            }
        }
    }
}

/// Replacing the entity at a position — the first holding its key —
/// changes that key's lookup to the new entity and no other lookup.
pub proof fn lemma_fs_lookup_update(s: Seq<FsEntry>, idx: int, e: FsEntry)
    requires
        0 <= idx < s.len(),
        e.key@ == s[idx].key@,
        forall|j: int| 0 <= j < idx ==> (#[trigger] s[j].key@) != s[idx].key@,
    ensures
        fs_lookup(s.update(idx, e), s[idx].key@) == Some(e.value@),
        forall|k: Seq<char>|
            k != s[idx].key@ ==> #[trigger] fs_lookup(s.update(idx, e), k) == fs_lookup(s, k),
    decreases idx,
{
    let t = s.update(idx, e);
    if idx == 0 {
        assert(t[0] == e);
        assert(t.drop_first() =~= s.drop_first());
        assert forall|k: Seq<char>|
            k != s[idx].key@ implies #[trigger] fs_lookup(t, k) == fs_lookup(s, k) by {
            assert(fs_lookup(t, k) == fs_lookup(t.drop_first(), k));
            assert(fs_lookup(s, k) == fs_lookup(s.drop_first(), k));
        }
    } else {
        assert(t[0] == s[0]);
        assert(t.drop_first() =~= s.drop_first().update(idx - 1, e));
        lemma_fs_lookup_update(s.drop_first(), idx - 1, e);
        assert(s[0].key@ != s[idx].key@);
        assert(fs_lookup(t, s[idx].key@) == fs_lookup(t.drop_first(), s[idx].key@));
        assert forall|k: Seq<char>|
            k != s[idx].key@ implies #[trigger] fs_lookup(t, k) == fs_lookup(s, k) by {
            if s[0].key@ != k {
                assert(fs_lookup(t, k) == fs_lookup(t.drop_first(), k));
                assert(fs_lookup(s, k) == fs_lookup(s.drop_first(), k));
                assert(fs_lookup(t.drop_first(), k) == fs_lookup(s.drop_first(), k));
            }
        }
    }
}

/// The position of the last separator in a path, if it has one.
pub open spec fn rfind_slash(p: Seq<char>) -> Option<int>
    decreases p.len(),
{
    if p.len() == 0 {
        None
    } else if p[p.len() - 1] == '/' {
        Some(p.len() - 1)
    } else {
        rfind_slash(p.drop_last())
    }
}

/// The directory part of a path: everything before the last separator, if
/// the path has one.
pub open spec fn parent_dir(p: Seq<char>) -> Option<Seq<char>> {
    match rfind_slash(p) {
        Some(i) => Some(p.subrange(0, i)),
        None => None,
    }
}

/// A separator with nothing but non-separators after it is what
/// `rfind_slash` finds.
pub proof fn lemma_rfind_slash_at(p: Seq<char>, i: int)
    requires
        0 <= i < p.len(),
        p[i] == '/',
        forall|k: int| i < k < p.len() ==> p[k] != '/',
    ensures
        rfind_slash(p) == Some(i),
    decreases p.len(),
{
    if i < p.len() - 1 {
        lemma_rfind_slash_at(p.drop_last(), i);
    }
}

/// A path without separators has no directory part.
pub proof fn lemma_rfind_slash_none(p: Seq<char>)
    requires
        forall|k: int| 0 <= k < p.len() ==> p[k] != '/',
    ensures
        rfind_slash(p) is None,
    decreases p.len(),
{
    if p.len() > 0 {
        lemma_rfind_slash_none(p.drop_last());
    }
}

/// Find the position of the last separator in a path, if it has one.
pub fn rfind_slash_exec(path: &str) -> (r: Option<usize>)
    ensures
        match r {
            Some(i) => i < path@.len() && rfind_slash(path@) == Some(i as int),
            None => rfind_slash(path@) is None,
        },
{
    let n = path.unicode_len();
    let mut i: usize = n;
    while i > 0
        invariant
            i <= n,
            n == path@.len(),
            forall|k: int| i <= k < n ==> path@[k] != '/',
        decreases i,
    {
        i = i - 1;
        if path.get_char(i) == '/' {
            proof {
                lemma_rfind_slash_at(path@, i as int);
            }
            return Some(i);
        }
    }
    proof {
        lemma_rfind_slash_none(path@);
    }
    None
}

/// The path's directory part as its own string, if the path has one.
pub fn parent_dir_exec(path: &str) -> (r: Option<String>)
    ensures
        match r {
            Some(d) => parent_dir(path@) == Some(d@),
            None => parent_dir(path@) is None,
        },
{
    match rfind_slash_exec(path) {
        Some(i) => Some(String::from_str(path.substring_char(0, i))),
        None => None,
    }
}

/// The positions of every separator in a path, in order.
pub open spec fn slash_positions(p: Seq<char>) -> Seq<int>
    decreases p.len(),
{
    if p.len() == 0 {
        Seq::empty()
    } else if p[p.len() - 1] == '/' {
        slash_positions(p.drop_last()).push(p.len() - 1)
    } else {
        slash_positions(p.drop_last())
    }
}

/// Every prefix of the path that ends just before a separator, shortest
/// first: the chain that creating the path's directories walks.
pub fn dir_prefixes(path: &str) -> (r: Vec<String>)
    ensures
        r@.len() == slash_positions(path@).len(),
        forall|k: int|
            0 <= k < r@.len() ==> (#[trigger] r@[k])@ == path@.subrange(
                0,
                slash_positions(path@)[k],
            ),
{
    let n = path.unicode_len();
    let mut out: Vec<String> = Vec::new();
    let mut i: usize = 0;
    proof {
        assert(path@.subrange(0, 0) =~= Seq::<char>::empty());
    }
    while i < n
        invariant
            i <= n,
            n == path@.len(),
            out@.len() == slash_positions(path@.subrange(0, i as int)).len(),
            forall|k: int|
                0 <= k < out@.len() ==> (#[trigger] out@[k])@ == path@.subrange(
                    0,
                    slash_positions(path@.subrange(0, i as int))[k],
                ),
        decreases n - i,
    {
        let ghost pre = path@.subrange(0, i as int);
        let ghost pre1 = path@.subrange(0, i + 1);
        proof {
            assert(pre1.drop_last() =~= pre);
            assert(pre1.last() == path@[i as int]);
        }
        if path.get_char(i) == '/' {
            out.push(String::from_str(path.substring_char(0, i)));
            proof {
                assert(slash_positions(pre1) == slash_positions(pre).push(i as int));
            }
        } else {
            proof {
                assert(slash_positions(pre1) == slash_positions(pre));
            }
        }
        i += 1;
    }
    proof {
        assert(path@.subrange(0, n as int) =~= path@);
    }
    out
}

/// True of the characters a virtual path may hold: ASCII letters and
/// digits, and the separator and punctuation set `/ _ . -`.
pub open spec fn is_path_char(c: char) -> bool {
    ||| 0x61 <= (c as u32) <= 0x7a  // 'a' ..= 'z'
    ||| 0x41 <= (c as u32) <= 0x5a  // 'A' ..= 'Z'
    ||| 0x30 <= (c as u32) <= 0x39  // '0' ..= '9'
    ||| c == '/'
    ||| c == '_'
    ||| c == '.'
    ||| c == '-'
}

/// True while every character of the path is allowed.
pub open spec fn path_ok(p: Seq<char>) -> bool {
    forall|i: int| 0 <= i < p.len() ==> is_path_char(#[trigger] p[i])
}

/// Reject a path holding any character outside the allowed set.
pub fn check_path(a: &str) -> (r: Result<(), IoError>)
    ensures
        r == if path_ok(a@) {
            Ok::<(), IoError>(())
        } else {
            Err::<(), IoError>(crate::error::spec_invalid_input())
        },
{
    let n = a.unicode_len();
    let mut i: usize = 0;
    while i < n
        invariant
            i <= n,
            n == a@.len(),
            forall|k: int| 0 <= k < i ==> is_path_char(#[trigger] a@[k]),
        decreases n - i,
    {
        let c = a.get_char(i);
        let u = c as u32;
        let ok = (0x61 <= u && u <= 0x7a) || (0x41 <= u && u <= 0x5a) || (0x30 <= u && u <= 0x39)
            || c == '/' || c == '_' || c == '.' || c == '-';
        if !ok {
            proof {
                assert(!is_path_char(a@[i as int]));
            }
            return Err(crate::error::invalid_input());
        }
        i += 1;
    }
    Ok(())
}

/// The map from path to entity, with its entries sorted by path.
#[derive(Debug)]
pub struct FileSystem {
    entries: Vec<FsEntry>,
}

impl Default for FileSystem {
    /// An empty filesystem.
    fn default() -> (r: FileSystem)
        ensures
            r.wf(),
            r.entries_seq() == Seq::<FsEntry>::empty(),
    {
        FileSystem { entries: Vec::new() }
    }
}

impl FileSystem {
    /// The entries, in their sorted order.
    pub closed spec fn entries_seq(&self) -> Seq<FsEntry> {
        self.entries@
    }

    /// The entity recorded under a path, if any.
    pub open spec fn lookup(&self, k: Seq<char>) -> Option<EntityView> {
        fs_lookup(self.entries_seq(), k)
    }

    /// True while the entries are strictly sorted by path.
    pub open spec fn wf(&self) -> bool {
        fs_sorted(self.entries_seq())
    }

    /// Where a path belongs among the entries: the index of its entry when
    /// present, else the index at which it would be inserted.
    fn search(&self, path: &str) -> (r: (usize, bool))
        requires
            self.wf(),
        ensures
            r.0 <= self.entries_seq().len(),
            forall|j: int| 0 <= j < r.0 ==> lex_lt(#[trigger] self.entries_seq()[j].key@, path@),
            r.1 ==> r.0 < self.entries_seq().len() && self.entries_seq()[r.0 as int].key@ == path@,
            !r.1 ==> (r.0 == self.entries_seq().len() || lex_lt(
                path@,
                self.entries_seq()[r.0 as int].key@,
            )),
    {
        let n = self.entries.len();
        let mut i: usize = 0;
        let mut found: bool = false;
        while i < n
            invariant_except_break
                !found,
            invariant
                i <= n,
                n == self.entries_seq().len(),
                forall|j: int|
                    0 <= j < i ==> lex_lt(#[trigger] self.entries_seq()[j].key@, path@),
            ensures
                found ==> i < n && self.entries_seq()[i as int].key@ == path@,
                !found ==> (i == n || lex_lt(path@, self.entries_seq()[i as int].key@)),
            decreases n - i,
        {
            match str_cmp(self.entries[i].key.as_str(), path) {
                StrOrder::Less => {
                    i += 1;
                },
                StrOrder::Equal => {
                    found = true;
                    break ;
                },
                StrOrder::Greater => {
                    break ;
                },
            }
        }
        (i, found)
    }

    /// The entity under a path, if any.
    pub fn get(&self, path: &str) -> (r: Option<&Entity>)
        requires
            self.wf(),
        ensures
            match r {
                Some(e) => self.lookup(path@) == Some(e@),
                None => self.lookup(path@) is None,
            },
    {
        let (i, found) = self.search(path);
        proof {
            assert forall|j: int| 0 <= j < i implies (#[trigger] self.entries_seq()[j].key@)
                != path@ by {
                lemma_lex_irrefl(path@);
            }
        }
        if found {
            proof {
                lemma_fs_lookup_at(self.entries_seq(), path@, i as int);
            }
            Some(&self.entries[i].value)
        } else {
            proof {
                assert forall|j: int|
                    0 <= j < self.entries_seq().len() implies (#[trigger] self.entries_seq()[j].key@)
                    != path@ by {
                    if j >= i {
                        lemma_lex_irrefl(path@);
                        if j > i {
                            lemma_lex_trans(
                                path@,
                                self.entries_seq()[i as int].key@,
                                self.entries_seq()[j].key@,
                            );
                        }
                    }
                }
                lemma_fs_lookup_absent(self.entries_seq(), path@);
            }
            None
        }
    }

    /// Record an entity under a path, replacing whatever the path named
    /// before.
    pub fn insert(&mut self, path: &str, value: Entity)
        requires
            old(self).wf(),
        ensures
            final(self).wf(),
            final(self).lookup(path@) == Some(value@),
            forall|k: Seq<char>|
                k != path@ ==> #[trigger] final(self).lookup(k) == old(self).lookup(k),
    {
        let (i, found) = self.search(path);
        proof {
            assert forall|j: int| 0 <= j < i implies (#[trigger] self.entries_seq()[j].key@)
                != path@ by {
                lemma_lex_irrefl(path@);
            }
        }
        if found {
            let ghost s = self.entries_seq();
            let entry = &mut self.entries[i];
            entry.value = value;
            proof {
                let e = FsEntry { key: s[i as int].key, value };
                assert(*final(entry) == e);
                assert(self.entries_seq() =~= s.update(i as int, e));
                lemma_fs_lookup_update(s, i as int, e);
                assert forall|a: int, b: int|
                    0 <= a < b < self.entries_seq().len() implies lex_lt(
                    #[trigger] self.entries_seq()[a].key@,
                    #[trigger] self.entries_seq()[b].key@,
                ) by {
                    assert(self.entries_seq()[a].key@ == s[a].key@);
                    assert(self.entries_seq()[b].key@ == s[b].key@);
                }
            }
        } else {
            let ghost s = self.entries_seq();
            let key = String::from_str(path);
            let e = FsEntry { key, value };
            proof {
                assert forall|j: int|
                    0 <= j < s.len() implies (#[trigger] s[j].key@) != path@ by {
                    if j >= i {
                        lemma_lex_irrefl(path@);
                        if j > i {
                            lemma_lex_trans(path@, s[i as int].key@, s[j].key@);
                        }
                    }
                }
            }
            self.entries.insert(i, e);
            proof {
                let t = self.entries_seq();
                assert(t =~= s.insert(i as int, e));
                lemma_fs_lookup_insert(s, i as int, e);
                assert forall|a: int, b: int|
                    0 <= a < b < t.len() implies lex_lt(
                    #[trigger] t[a].key@,
                    #[trigger] t[b].key@,
                ) by {
                    if b < i {
                        assert(t[a] == s[a] && t[b] == s[b]);
                    } else if a > i {
                        assert(t[a] == s[a - 1] && t[b] == s[b - 1]);
                    } else if a < i && b == i {
                        assert(t[a] == s[a]);
                    } else if a < i && b > i {
                        assert(t[a] == s[a] && t[b] == s[b - 1]);
                    } else if a == i && b > i {
                        assert(t[b] == s[b - 1]);
                        if i < s.len() {
                            if b - 1 > i {
                                lemma_lex_trans(path@, s[i as int].key@, s[b - 1].key@);
                            }
                        }
                    }
                }
            }
        }
    }

    /// How many entries the filesystem holds.
    pub fn entry_count(&self) -> (r: usize)
        ensures
            r == self.entries_seq().len(),
    {
        self.entries.len()
    }

    /// The entry at a position of the sorted order.
    pub fn entry_at(&self, i: usize) -> (r: &FsEntry)
        requires
            i < self.entries_seq().len(),
        ensures
            *r == self.entries_seq()[i as int],
    {
        &self.entries[i]
    }

    /// Write bytes into the file under the path, at the given byte
    /// offset, zero-filling any gap past the old end. Reports whether the
    /// path named a file; nothing changes when it did not.
    pub fn write_file_at(&mut self, path: &str, pos: usize, data: &[u8]) -> (r: bool)
        requires
            old(self).wf(),
            pos + data@.len() <= usize::MAX,
        ensures
            final(self).wf(),
            match old(self).lookup(path@) {
                Some(EntityView::File(c)) => r && final(self).lookup(path@) == Some(
                    EntityView::File(write_at(c, pos as int, data@)),
                ) && (forall|k: Seq<char>|
                    k != path@ ==> #[trigger] final(self).lookup(k) == old(self).lookup(k)),
                _ => !r && *final(self) == *old(self),
            },
    {
        let (i, found) = self.search(path);
        proof {
            assert forall|j: int| 0 <= j < i implies (#[trigger] self.entries_seq()[j].key@)
                != path@ by {
                lemma_lex_irrefl(path@);
            }
        }
        if !found {
            proof {
                assert forall|j: int|
                    0 <= j < self.entries_seq().len() implies (#[trigger] self.entries_seq()[j].key@)
                    != path@ by {
                    if j >= i {
                        lemma_lex_irrefl(path@);
                        if j > i {
                            lemma_lex_trans(
                                path@,
                                self.entries_seq()[i as int].key@,
                                self.entries_seq()[j].key@,
                            );
                        }
                    }
                }
                lemma_fs_lookup_absent(self.entries_seq(), path@);
            }
            return false;
        }
        proof {
            lemma_fs_lookup_at(self.entries_seq(), path@, i as int);
        }
        let mut buf: VecRef = match &self.entries[i].value {
            Entity::File(v) => v.clone(),
            Entity::Dir => {
                return false;
            },
        };
        let ghost c = buf@;
        let end = pos + data.len();
        while buf.byte_len() < end
            invariant
                end == pos + data@.len(),
                end <= usize::MAX,
                c.len() <= buf@.len(),
                buf@.len() <= if c.len() >= end {
                    c.len() as int
                } else {
                    end as int
                },
                forall|t: int| 0 <= t < c.len() ==> buf@[t] == c[t],
                forall|t: int| c.len() <= t < buf@.len() ==> buf@[t] == 0u8,
            decreases end - buf@.len(),
        {
            buf.push_byte(0);
        }
        let mut j: usize = 0;
        while j < data.len()
            invariant
                end == pos + data@.len(),
                end <= usize::MAX,
                j <= data@.len(),
                buf@.len() == if c.len() >= end {
                    c.len() as int
                } else {
                    end as int
                },
                forall|t: int| 0 <= t < c.len() && !(pos <= t < pos + j) ==> buf@[t] == c[t],
                forall|t: int|
                    c.len() <= t < buf@.len() && !(pos <= t < pos + j) ==> buf@[t] == 0u8,
                forall|t: int| 0 <= t < j ==> buf@[pos + t] == data@[t],
            decreases data@.len() - j,
        {
            buf.set_byte(pos + j, data[j]);
            j += 1;
        }
        proof {
            assert(buf@ =~= write_at(c, pos as int, data@));
        }
        self.insert(path, Entity::File(buf));
        true
    }

    /// Succeed exactly when the path names a directory.
    pub fn check_dir(&self, path: &str) -> (r: Result<(), IoError>)
        requires
            self.wf(),
        ensures
            r == if self.lookup(path@) == Some(EntityView::Dir) {
                Ok::<(), IoError>(())
            } else {
                Err::<(), IoError>(crate::error::spec_not_found())
            },
    {
        match self.get(path) {
            Some(e) => match e {
                Entity::Dir => Ok(()),
                Entity::File(_) => Err(not_found()),
            },
            None => Err(not_found()),
        }
    }

    /// Succeed when the path has no directory part, or when its directory
    /// part names a directory.
    pub fn check_parent(&self, path: &str) -> (r: Result<(), IoError>)
        requires
            self.wf(),
        ensures
            r == match parent_dir(path@) {
                Some(d) => if self.lookup(d) == Some(EntityView::Dir) {
                    Ok::<(), IoError>(())
                } else {
                    Err::<(), IoError>(crate::error::spec_not_found())
                },
                None => Ok::<(), IoError>(()),
            },
    {
        match rfind_slash_exec(path) {
            Some(i) => {
                let d = path.substring_char(0, i);
                self.check_dir(d)
            },
            None => Ok(()),
        }
    }
}

} // verus!
