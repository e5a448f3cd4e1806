//! File system paths: resolving a path against the working directory and
//! normalising it, with text held as sequences of characters.
use vstd::prelude::*;
use vstd::std_specs::convert::FromSpecImpl;
use crate::ramfs::{FsError, Permission};

verus! {

/// The stack of directory names after one path component: empty
/// components and `.` change nothing, `..` drops the last name (if any),
/// anything else is a name.
pub open spec fn apply_component(stack: Seq<Seq<char>>, piece: Seq<char>) -> Seq<Seq<char>> {
    if piece.len() == 0 || piece == seq!['.'] {
        stack
    } else if piece == seq!['.', '.'] {
        if stack.len() > 0 {
            stack.drop_last()
        } else {
            stack
        }
    } else {
        stack.push(piece)
    }
}

/// Reading a path character by character: the names taken so far and the
/// component being read.
pub open spec fn walk(s: Seq<char>) -> (Seq<Seq<char>>, Seq<char>)
    decreases s.len(),
{
    if s.len() == 0 {
        (Seq::empty(), Seq::empty())
    } else {
        let (st, cur) = walk(s.drop_last());
        if s.last() == '/' {
            (apply_component(st, cur), Seq::empty())
        } else {
            (st, cur.push(s.last()))
        }
    }
}

/// The names a path leads through once `.` and `..` are worked out.
pub open spec fn path_names(s: Seq<char>) -> Seq<Seq<char>> {
    apply_component(walk(s).0, walk(s).1)
}

/// The names joined, each after a slash.
pub open spec fn join_slash(names: Seq<Seq<char>>) -> Seq<char>
    decreases names.len(),
{
    if names.len() == 0 {
        Seq::empty()
    } else {
        join_slash(names.drop_last()).push('/') + names.last()
    }
}

/// A normalised path: `/` alone, or each name after a slash and a final slash.
pub open spec fn normalized(s: Seq<char>) -> Seq<char> {
    join_slash(path_names(s)).push('/')
}

/// A name a normalised path can hold: not empty, not `.` or `..`, and
/// without a slash.
pub open spec fn valid_name(n: Seq<char>) -> bool {
    &&& n.len() > 0
    &&& n != seq!['.']
    &&& n != seq!['.', '.']
    &&& forall|i: int| 0 <= i < n.len() ==> n[i] != '/'
}

/// Every name is one a normalised path can hold.
pub open spec fn valid_names(ns: Seq<Seq<char>>) -> bool {
    forall|i: int| 0 <= i < ns.len() ==> valid_name(#[trigger] ns[i])
}

proof fn lemma_apply_component_valid(st: Seq<Seq<char>>, piece: Seq<char>)
    requires
        valid_names(st),
        forall|i: int| 0 <= i < piece.len() ==> piece[i] != '/',
    ensures
        valid_names(apply_component(st, piece)),
{
    if piece.len() == 0 || piece == seq!['.'] {
    } else if piece == seq!['.', '.'] {
        if st.len() > 0 {
            assert forall|i: int| 0 <= i < st.drop_last().len() implies valid_name(#[trigger] st.drop_last()[i]) by {
                assert(st.drop_last()[i] == st[i]);
            }
        }
    } else {
        assert forall|i: int| 0 <= i < st.push(piece).len() implies valid_name(#[trigger] st.push(piece)[i]) by {
            if i < st.len() {
                assert(st.push(piece)[i] == st[i]);
            }
        }
    }
}

proof fn lemma_walk_valid(s: Seq<char>)
    ensures
        valid_names(walk(s).0),
        forall|i: int| 0 <= i < walk(s).1.len() ==> walk(s).1[i] != '/',
    decreases s.len(),
{
    if s.len() > 0 {
        lemma_walk_valid(s.drop_last());
        let (st, cur) = walk(s.drop_last());
        if s.last() == '/' {
            lemma_apply_component_valid(st, cur);
        } else {
            assert forall|i: int| 0 <= i < cur.push(s.last()).len() implies cur.push(s.last())[i] != '/' by {
                if i < cur.len() {
                    assert(cur.push(s.last())[i] == cur[i]);
                }
            }
        }
    }
}

proof fn lemma_walk_word(p: Seq<char>, w: Seq<char>)
    requires
        forall|i: int| 0 <= i < w.len() ==> w[i] != '/',
    ensures
        walk(p + w) == (walk(p).0, walk(p).1 + w),
    decreases w.len(),
{
    if w.len() == 0 {
        assert(p + w =~= p);
        assert(walk(p).1 + w =~= walk(p).1);
    } else {
        lemma_walk_word(p, w.drop_last());
        assert((p + w).drop_last() =~= p + w.drop_last());
        assert((p + w).last() == w.last());
        assert((walk(p).1 + w.drop_last()).push(w.last()) =~= walk(p).1 + w);
    }
}

proof fn lemma_walk_joined(ns: Seq<Seq<char>>)
    requires
        valid_names(ns),
    ensures
        walk(join_slash(ns).push('/')) == (ns, Seq::<char>::empty()),
        ns.len() > 0 ==> walk(join_slash(ns)) == (ns.drop_last(), ns.last()),
        ns.len() == 0 ==> walk(join_slash(ns)) == (Seq::<Seq<char>>::empty(), Seq::<char>::empty()),
    decreases ns.len(),
{
    let j = join_slash(ns);
    if ns.len() > 0 {
        let rest = ns.drop_last();
        assert(valid_names(rest)) by {
            assert forall|i: int| 0 <= i < rest.len() implies valid_name(#[trigger] rest[i]) by {
                assert(rest[i] == ns[i]);
            }
        }
        lemma_walk_joined(rest);
        assert(valid_name(ns[ns.len() - 1]));
        lemma_walk_word(join_slash(rest).push('/'), ns.last());
        assert(walk(j) == (rest, ns.last()));
    }
    let jp = j.push('/');
    assert(jp.drop_last() =~= j);
    assert(jp.last() == '/');
    assert(walk(jp) == (apply_component(walk(j).0, walk(j).1), Seq::<char>::empty()));
    if ns.len() > 0 {
        let last = ns.last();
        assert(last.len() > 0 && last != seq!['.'] && last != seq!['.', '.']);
        assert(apply_component(ns.drop_last(), last) == ns.drop_last().push(last));
        assert(ns.drop_last().push(last) =~= ns);
    } else {
        assert(ns =~= Seq::<Seq<char>>::empty());
    }
}

/// Normalising a normalised path changes nothing.
pub proof fn lemma_normalize_idempotent(s: Seq<char>)
    ensures
        normalized(normalized(s)) == normalized(s),
{
    let ns = path_names(s);
    lemma_walk_valid(s);
    lemma_apply_component_valid(walk(s).0, walk(s).1);
    lemma_walk_joined(ns);
    assert(path_names(normalized(s)) == ns);
}

fn chars_are(a: &Vec<char>, b: &[char]) -> (r: bool)
    ensures
        r == (a@ == b@),
{
    if a.len() != b.len() {
        return false;
    }
    let mut i: usize = 0;
    while i < a.len()
        invariant
            a@.len() == b@.len(),
            i <= a@.len(),
            forall|j: int| 0 <= j < i ==> a@[j] == b@[j],
        decreases a@.len() - i,
    {
        if a[i] != b[i] {
            return false;
        }
        i = i + 1;
    }
    assert(a@ =~= b@);
    true
}

fn apply_component_exec(stack: &mut Vec<Vec<char>>, piece: Vec<char>)
    ensures
        final(stack)@.map_values(|v: Vec<char>| v@) == apply_component(old(stack)@.map_values(|v: Vec<char>| v@), piece@),
{
    let dot: [char; 1] = ['.'];
    let dotdot: [char; 2] = ['.', '.'];
    assert(dot@ =~= seq!['.']);
    assert(dotdot@ =~= seq!['.', '.']);
    let ghost before = stack@.map_values(|v: Vec<char>| v@);
    if piece.len() == 0 || chars_are(&piece, &dot) {
    } else if chars_are(&piece, &dotdot) {
        if stack.len() > 0 {
            stack.pop();
            assert(stack@.map_values(|v: Vec<char>| v@) =~= before.drop_last());
        }
    } else {
        let ghost p = piece@;
        stack.push(piece);
        assert(stack@.map_values(|v: Vec<char>| v@) =~= before.push(p));
    }
}

/// The names a path leads through once `.` and `..` are worked out.
fn names_of(path: &[char]) -> (r: Vec<Vec<char>>)
    ensures
        r@.map_values(|v: Vec<char>| v@) == path_names(path@),
{
    let mut stack: Vec<Vec<char>> = Vec::new();
    let mut cur: Vec<char> = Vec::new();
    let mut i: usize = 0;
    while i < path.len()
        invariant
            i <= path@.len(),
            (stack@.map_values(|v: Vec<char>| v@), cur@) == walk(path@.take(i as int)),
        decreases path@.len() - i,
    {
        proof {
            assert(path@.take(i + 1).drop_last() =~= path@.take(i as int));
            assert(path@.take(i + 1).last() == path@[i as int]);
        }
        let c = path[i];
        if c == '/' {
            let piece = cur;
            cur = Vec::new();
            apply_component_exec(&mut stack, piece);
        } else {
            cur.push(c);
        }
        i = i + 1;
    }
    assert(path@.take(path@.len() as int) =~= path@);
    apply_component_exec(&mut stack, cur);
    stack
}

/// Normalises a path: `.` and empty components are dropped, `..` drops
/// the name before it (at the root it stays at the root); the result is `/`
/// alone or each name after a slash with a slash at the end.
pub fn normalize_path(path: &[char]) -> (r: Vec<char>)
    ensures
        r@ == normalized(path@),
{
    let names = names_of(path);
    let ghost ns = names@.map_values(|v: Vec<char>| v@);
    let mut out: Vec<char> = Vec::new();
    let mut k: usize = 0;
    while k < names.len()
        invariant
            k <= names@.len(),
            ns == names@.map_values(|v: Vec<char>| v@),
            out@ == join_slash(ns.take(k as int)),
        decreases names@.len() - k,
    {
        proof {
            assert(ns.take(k + 1).drop_last() =~= ns.take(k as int));
            assert(ns.take(k + 1).last() == names@[k as int]@);
        }
        out.push('/');
        let name = &names[k];
        let ghost base = out@;
        let mut j: usize = 0;
        while j < name.len()
            invariant
                j <= name@.len(),
                out@ == base + name@.take(j as int),
            decreases name@.len() - j,
        {
            out.push(name[j]);
            j = j + 1;
            assert(out@ =~= base + name@.take(j as int));
        }
        assert(name@.take(name@.len() as int) =~= name@);
        k = k + 1;
    }
    assert(ns.take(names@.len() as int) =~= ns);
    out.push('/');
    out
}

/// The path `path` names from the working directory `cwd`: an absolute
/// path stands for itself, a relative one is read after `cwd` and a slash;
/// then the result is normalised.
pub fn resolve_path(path: &[char], cwd: &[char]) -> (r: Vec<char>)
    ensures
        path@.len() > 0 && path@[0] == '/' ==> r@ == normalized(path@),
        !(path@.len() > 0 && path@[0] == '/') ==> r@ == normalized(cwd@.push('/') + path@),
{
    if path.len() > 0 && path[0] == '/' {
        return normalize_path(path);
    }
    let mut full: Vec<char> = Vec::new();
    let mut i: usize = 0;
    while i < cwd.len()
        invariant
            i <= cwd@.len(),
            full@ == cwd@.take(i as int),
        decreases cwd@.len() - i,
    {
        full.push(cwd[i]);
        i = i + 1;
        assert(full@ =~= cwd@.take(i as int));
    }
    assert(cwd@.take(cwd@.len() as int) =~= cwd@);
    full.push('/');
    let ghost base = full@;
    let mut j: usize = 0;
    while j < path.len()
        invariant
            j <= path@.len(),
            full@ == base + path@.take(j as int),
        decreases path@.len() - j,
    {
        full.push(path[j]);
        j = j + 1;
        assert(full@ =~= base + path@.take(j as int));
    }
    assert(path@.take(path@.len() as int) =~= path@);
    normalize_path(full.as_slice())
}

/// Longest entry name passed across the system call boundary.
pub const NULLEX_NAME_MAX: usize = 256;
/// Directory opening flag: none.
pub const OPEND_NONE: u64 = 0;
/// Directory opening flag: resolve the path.
pub const OPEND_RESOLVE: u64 = 1;

/// Permissions as passed across the system call boundary.
#[derive(Debug, Clone, Copy, PartialEq, Eq, Structural)]
pub struct SCPermission {
    pub read: u8,
    pub write: u8,
    pub execute: u8,
}

/// The permissions as bytes: 1 for set, 0 for not.
pub open spec fn sc_permission_of(p: Permission) -> SCPermission {
    SCPermission {
        read: if p.read { 1 } else { 0 },
        write: if p.write { 1 } else { 0 },
        execute: if p.execute { 1 } else { 0 },
    }
}

impl From<Permission> for SCPermission {
    fn from(value: Permission) -> (r: Self) {
        SCPermission { read: value.read as u8, write: value.write as u8, execute: value.execute as u8 }
    }
}

impl FromSpecImpl<Permission> for SCPermission {
    open spec fn obeys_from_spec() -> bool {
        true
    }

    open spec fn from_spec(value: Permission) -> Self {
        sc_permission_of(value)
    }
}

/// File system error codes as passed across the system call boundary.
#[derive(Debug, Clone, Copy, PartialEq, Eq, Structural)]
pub enum SCFsErrorCode {
    Success,
    EntryNotFound,
    NotADirectory,
    NotAFile,
    PermissionDenied,
    AlreadyExists,
    InvalidPath,
    DirectoryNotEmpty,
}

/// The code of each error.
pub open spec fn sc_error_of(e: FsError) -> SCFsErrorCode {
    match e {
        FsError::EntryNotFound => SCFsErrorCode::EntryNotFound,
        FsError::NotADirectory => SCFsErrorCode::NotADirectory,
        FsError::NotAFile => SCFsErrorCode::NotAFile,
        FsError::PermissionDenied => SCFsErrorCode::PermissionDenied,
        FsError::AlreadyExists => SCFsErrorCode::AlreadyExists,
        FsError::InvalidPath => SCFsErrorCode::InvalidPath,
        FsError::DirectoryNotEmpty => SCFsErrorCode::DirectoryNotEmpty,
    }
}

impl From<FsError> for SCFsErrorCode {
    fn from(value: FsError) -> (r: Self) {
        match value {
            FsError::EntryNotFound => SCFsErrorCode::EntryNotFound,
            FsError::NotADirectory => SCFsErrorCode::NotADirectory,
            FsError::NotAFile => SCFsErrorCode::NotAFile,
            FsError::PermissionDenied => SCFsErrorCode::PermissionDenied,
            FsError::AlreadyExists => SCFsErrorCode::AlreadyExists,
            FsError::InvalidPath => SCFsErrorCode::InvalidPath,
            FsError::DirectoryNotEmpty => SCFsErrorCode::DirectoryNotEmpty,
        }
    }
}

impl FromSpecImpl<FsError> for SCFsErrorCode {
    open spec fn obeys_from_spec() -> bool {
        true
    }

    open spec fn from_spec(value: FsError) -> Self {
        sc_error_of(value)
    }
}

impl SCFsErrorCode {
    /// The number the code stands for across the boundary (`Success` is 0, then
    /// the errors from 1 in order).
    pub fn code(&self) -> (r: u32)
        ensures
            r == match *self {
                SCFsErrorCode::Success => 0u32,
                SCFsErrorCode::EntryNotFound => 1,
                SCFsErrorCode::NotADirectory => 2,
                SCFsErrorCode::NotAFile => 3,
                SCFsErrorCode::PermissionDenied => 4,
                SCFsErrorCode::AlreadyExists => 5,
                SCFsErrorCode::InvalidPath => 6,
                SCFsErrorCode::DirectoryNotEmpty => 7,
            },
    {
        match self {
            SCFsErrorCode::Success => 0,
            SCFsErrorCode::EntryNotFound => 1,
            SCFsErrorCode::NotADirectory => 2,
            SCFsErrorCode::NotAFile => 3,
            SCFsErrorCode::PermissionDenied => 4,
            SCFsErrorCode::AlreadyExists => 5,
            SCFsErrorCode::InvalidPath => 6,
            SCFsErrorCode::DirectoryNotEmpty => 7,
        }
    }
}

/// Entry kinds as passed across the system call boundary (`File` is 0,
/// `Directory` is 1).
#[derive(Debug, Clone, Copy, PartialEq, Eq, Structural)]
pub enum SCEntryKind {
    File,
    Directory,
}

/// A directory entry as passed across the system call boundary.
#[derive(Debug, Clone, Copy)]
pub struct SCDirectoryEntryInfo {
    pub kind: SCEntryKind,
    pub permission: SCPermission,
    pub size: u64,
    pub name_len: u32,
    pub name: [u8; 256],
}

impl SCDirectoryEntryInfo {
    /// The record of an entry: its kind and permissions, its size (a file's
    /// length in bytes, a directory's number of entries), and its name cut to
    /// `NULLEX_NAME_MAX` bytes, the rest of the name field zero.
    pub fn from_entry(name: &[u8], is_dir: bool, permission: Permission, size: u64) -> (r: Self)
        ensures
            r.kind == (if is_dir { SCEntryKind::Directory } else { SCEntryKind::File }),
            r.permission == sc_permission_of(permission),
            r.size == size,
            r.name_len == (if name@.len() < NULLEX_NAME_MAX { name@.len() } else { NULLEX_NAME_MAX as nat }),
            forall|i: int| 0 <= i < NULLEX_NAME_MAX ==> #[trigger] r.name@[i] == (if i < r.name_len { name@[i] } else { 0u8 }),
    {
        let mut buf: [u8; 256] = [0u8; 256];
        let take = if name.len() < NULLEX_NAME_MAX { name.len() } else { NULLEX_NAME_MAX };
        let mut i: usize = 0;
        while i < take
            invariant
                take <= name@.len(),
                take <= NULLEX_NAME_MAX,
                i <= take,
                buf@.len() == NULLEX_NAME_MAX,
                forall|j: int| 0 <= j < NULLEX_NAME_MAX ==> #[trigger] buf@[j] == (if j < i { name@[j] } else { 0u8 }),
            decreases take - i,
        {
            buf[i] = name[i];
            i = i + 1;
        }
        let permission = SCPermission::from(permission);
        SCDirectoryEntryInfo {
            kind: if is_dir { SCEntryKind::Directory } else { SCEntryKind::File },
            permission,
            size,
            name_len: take as u32,
            name: buf,
        }
    }
}

} // verus!
