//! An in-memory file system: a tree of directories and files, addressed by
//! slash-separated paths.
//!
//! The tree is kept as a table of nodes, each naming its parent; node 0 is
//! the root directory and a removed node stays in the table marked dead.
//! A node's parent comes before it, and no directory has two live entries
//! of one name.
use vstd::prelude::*;

verus! {

/// Access rights of a file or directory.
#[derive(Debug, Clone, Copy, PartialEq, Eq, Structural)]
pub struct Permission {
    /// Can read from a file
    pub read: bool,
    /// Can write to a file
    pub write: bool,
    /// Can execute a file.
    pub execute: bool,
}

impl Permission {
    /// All permissions.
    pub fn all() -> (r: Self)
        ensures
            r == (Permission { read: true, write: true, execute: true }),
    {
        Permission { read: true, write: true, execute: true }
    }

    /// Read-only permissions.
    pub fn read() -> (r: Self)
        ensures
            r == (Permission { read: true, write: false, execute: false }),
    {
        Permission { read: true, write: false, execute: false }
    }
}

/// A file: its bytes and its permissions.
#[derive(Debug)]
pub struct File {
    /// Content in bytes.
    pub content: Vec<u8>,
    /// Permission level for the file.
    pub permission: Permission,
}

impl File {
    /// An empty file.
    pub fn new(permission: Permission) -> (r: Self)
        ensures
            r.content@ == Seq::<u8>::empty(),
            r.permission == permission,
    {
        File { content: Vec::new(), permission }
    }
}

/// What a node is.
#[derive(Debug)]
pub enum NodeKind {
    File(File),
    Directory(Permission),
}

/// A node of the tree.
#[derive(Debug)]
pub struct Node {
    pub name: Vec<char>,
    pub parent: usize,
    pub kind: NodeKind,
    pub alive: bool,
}

/// Errors of the file system.
#[derive(Debug, Clone, Copy, PartialEq, Eq, Structural)]
pub enum FsError {
    /// Entry not found
    EntryNotFound,
    /// Target is not a directory.
    NotADirectory,
    /// Target is not a file.
    NotAFile,
    /// Invalid permissions for access.
    PermissionDenied,
    /// File already exists
    AlreadyExists,
    /// Path is invalid.
    InvalidPath,
    /// The directory is currently not empty.
    DirectoryNotEmpty,
}

/// The text shown for each error.
pub open spec fn fs_error_message(e: FsError) -> Seq<char> {
    match e {
        FsError::EntryNotFound => "Entry not found"@,
        FsError::NotADirectory => "Not a directory"@,
        FsError::NotAFile => "Not a file"@,
        FsError::PermissionDenied => "Permission denied"@,
        FsError::AlreadyExists => "Entry already exists"@,
        FsError::InvalidPath => "Invalid path"@,
        FsError::DirectoryNotEmpty => "Directory not empty"@,
    }
}

impl FsError {
    /// The text shown for the error.
    pub fn message(&self) -> (r: &'static str)
        ensures
            r@ == fs_error_message(*self),
    {
        match self {
            FsError::EntryNotFound => "Entry not found",
            FsError::NotADirectory => "Not a directory",
            FsError::NotAFile => "Not a file",
            FsError::PermissionDenied => "Permission denied",
            FsError::AlreadyExists => "Entry already exists",
            FsError::InvalidPath => "Invalid path",
            FsError::DirectoryNotEmpty => "Directory not empty",
        }
    }
}

/// A node as plain values.
pub struct NodeView {
    pub name: Seq<char>,
    pub parent: int,
    pub is_dir: bool,
    pub content: Seq<u8>,
    pub permission: Permission,
    pub alive: bool,
}

impl Node {
    /// The node as plain values.
    pub open spec fn view_node(&self) -> NodeView {
        match self.kind {
            NodeKind::File(f) => NodeView {
                name: self.name@,
                parent: self.parent as int,
                is_dir: false,
                content: f.content@,
                permission: f.permission,
                alive: self.alive,
            },
            NodeKind::Directory(p) => NodeView {
                name: self.name@,
                parent: self.parent as int,
                is_dir: true,
                content: Seq::empty(),
                permission: p,
                alive: self.alive,
            },
        }
    }
}

/// The in-memory file system.
pub struct FileSystem {
    pub nodes: Vec<Node>,
    pub current_path: Vec<Vec<char>>,
}

/// The node table as plain values.
pub open spec fn view_nodes(nodes: Seq<Node>) -> Seq<NodeView> {
    nodes.map_values(|n: Node| n.view_node())
}

/// The node table is a tree: node 0 is a live directory, every other live
/// node has a live directory before it as parent, and no directory has two
/// live entries of one name.
#[verifier::opaque]
pub open spec fn tree_wf(ns: Seq<NodeView>) -> bool {
    &&& ns.len() >= 1
    &&& ns[0].alive && ns[0].is_dir && ns[0].parent == 0
    &&& forall|i: int| 1 <= i < ns.len() && (#[trigger] ns[i]).alive ==> 0 <= ns[i].parent < i
        && ns[ns[i].parent].alive && ns[ns[i].parent].is_dir
    &&& forall|i: int, j: int|
        1 <= i < ns.len() && 1 <= j < ns.len() && i != j && (#[trigger] ns[i]).alive && (#[trigger] ns[j]).alive
            && ns[i].parent == ns[j].parent ==> ns[i].name != ns[j].name
}

/// The live entry named `name` in directory `dir`, or -1.
pub open spec fn child(ns: Seq<NodeView>, dir: int, name: Seq<char>) -> int {
    if exists|i: int| 1 <= i < ns.len() && (#[trigger] ns[i]).alive && ns[i].parent == dir && ns[i].name == name {
        choose|i: int| 1 <= i < ns.len() && (#[trigger] ns[i]).alive && ns[i].parent == dir && ns[i].name == name
    } else {
        -1
    }
}

/// The directory a list of names leads to from the root, or why it leads
/// nowhere: a missing entry, or one that is not a directory.
pub open spec fn resolve(ns: Seq<NodeView>, comps: Seq<Seq<char>>) -> Result<int, FsError>
    decreases comps.len(),
{
    if comps.len() == 0 {
        Ok(0)
    } else {
        match resolve(ns, comps.drop_last()) {
            Ok(d) => {
                let c = child(ns, d, comps.last());
                if c < 0 {
                    Err(FsError::EntryNotFound)
                } else if !ns[c].is_dir {
                    Err(FsError::NotADirectory)
                } else {
                    Ok(c)
                }
            },
            Err(e) => Err(e),
        }
    }
}

impl FileSystem {
    /// The node table as plain values.
    pub open spec fn view_fs(&self) -> Seq<NodeView> {
        view_nodes(self.nodes@)
    }

    /// The current directory, as names from the root.
    pub open spec fn cwd(&self) -> Seq<Seq<char>> {
        self.current_path@.map_values(|v: Vec<char>| v@)
    }

    /// A file system holding only the root directory, with all permissions.
    pub fn new() -> (r: FileSystem)
        ensures
            tree_wf(r.view_fs()),
            r.view_fs().len() == 1,
            r.view_fs()[0].permission == Permission::all_spec(),
            r.cwd() == Seq::<Seq<char>>::empty(),
    {
        let mut nodes: Vec<Node> = Vec::new();
        nodes.push(Node { name: Vec::new(), parent: 0, kind: NodeKind::Directory(Permission::all()), alive: true });
        let fs = FileSystem { nodes, current_path: Vec::new() };
        assert(fs.cwd() =~= Seq::<Seq<char>>::empty());
        reveal(tree_wf);
        fs
    }
}

impl Permission {
    /// All permissions.
    pub open spec fn all_spec() -> Permission {
        Permission { read: true, write: true, execute: true }
    }
}

/// The names after one path component: empty components and `.` change
/// nothing, `..` drops the last name (there must be one), anything else is
/// a name. `None` once a `..` found nothing to drop.
pub open spec fn comp_step(st: Option<Seq<Seq<char>>>, piece: Seq<char>) -> Option<Seq<Seq<char>>> {
    match st {
        None => None,
        Some(s) => if piece.len() == 0 || piece == seq!['.'] {
            Some(s)
        } else if piece == seq!['.', '.'] {
            if s.len() > 0 {
                Some(s.drop_last())
            } else {
                None
            }
        } else {
            Some(s.push(piece))
        },
    }
}

/// Reading a path character by character: the names so far and the
/// component being read.
pub open spec fn comp_walk(s: Seq<char>) -> (Option<Seq<Seq<char>>>, Seq<char>)
    decreases s.len(),
{
    if s.len() == 0 {
        (Some(Seq::empty()), Seq::empty())
    } else {
        let (st, cur) = comp_walk(s.drop_last());
        if s.last() == '/' {
            (comp_step(st, cur), Seq::empty())
        } else {
            (st, cur.push(s.last()))
        }
    }
}

/// The names of a path, or `None` when a `..` goes above the start.
pub open spec fn path_comps(s: Seq<char>) -> Option<Seq<Seq<char>>> {
    comp_step(comp_walk(s).0, comp_walk(s).1)
}

/// The names as plain sequences.
pub open spec fn names_view(v: Seq<Vec<char>>) -> Seq<Seq<char>> {
    v.map_values(|x: Vec<char>| x@)
}

fn chars_match(a: &Vec<char>, b: &[char]) -> (r: bool)
    ensures
        r == (a@ == b@),
{
    if a.len() != b.len() {
        return false;
    }
    let mut i: usize = 0;
    while i < a.len()
        invariant
            a@.len() == b@.len(),
            i <= a@.len(),
            forall|j: int| 0 <= j < i ==> a@[j] == b@[j],
        decreases a@.len() - i,
    {
        if a[i] != b[i] {
            return false;
        }
        i = i + 1;
    }
    assert(a@ =~= b@);
    true
}

fn same_name(a: &Vec<char>, b: &Vec<char>) -> (r: bool)
    ensures
        r == (a@ == b@),
{
    chars_match(a, b.as_slice())
}

/// Applies one component to the names; `false` when a `..` had nothing to drop.
fn comp_step_exec(stack: &mut Vec<Vec<char>>, piece: Vec<char>) -> (ok: bool)
    ensures
        ok ==> comp_step(Some(names_view(old(stack)@)), piece@) == Some(names_view(final(stack)@)),
        !ok ==> comp_step(Some(names_view(old(stack)@)), piece@) is None,
{
    let dot: [char; 1] = ['.'];
    let dotdot: [char; 2] = ['.', '.'];
    assert(dot@ =~= seq!['.']);
    assert(dotdot@ =~= seq!['.', '.']);
    let ghost before = names_view(stack@);
    if piece.len() == 0 || chars_match(&piece, &dot) {
        true
    } else if chars_match(&piece, &dotdot) {
        if stack.len() > 0 {
            stack.pop();
            assert(names_view(stack@) =~= before.drop_last());
            true
        } else {
            false
        }
    } else {
        let ghost p = piece@;
        stack.push(piece);
        assert(names_view(stack@) =~= before.push(p));
        true
    }
}

proof fn lemma_comp_walk_stuck(s: Seq<char>, i: int)
    requires
        0 <= i <= s.len(),
        comp_walk(s.take(i)).0 is None,
    ensures
        path_comps(s) is None,
    decreases s.len() - i,
{
    if i == s.len() {
        assert(s.take(i) =~= s);
    } else {
        assert(s.take(i + 1).drop_last() =~= s.take(i));
        lemma_comp_walk_stuck(s, i + 1);
    }
}

impl FileSystem {
    /// The names of a path: components split at `/`, empty ones and `.`
    /// skipped, `..` dropping the name before it; a `..` with nothing
    /// before it makes the path invalid.
    pub fn path_components(path: &[char]) -> (r: Result<Vec<Vec<char>>, FsError>)
        ensures
            match path_comps(path@) {
                Some(c) => r matches Ok(v) && names_view(v@) == c,
                None => r == Err::<Vec<Vec<char>>, FsError>(FsError::InvalidPath),
            },
    {
        let mut stack: Vec<Vec<char>> = Vec::new();
        let mut cur: Vec<char> = Vec::new();
        let mut i: usize = 0;
        proof {
            assert(path@.take(0) =~= Seq::<char>::empty());
            assert(names_view(stack@) =~= Seq::<Seq<char>>::empty());
        }
        while i < path.len()
            invariant
                i <= path@.len(),
                comp_walk(path@.take(i as int)) == (Some(names_view(stack@)), cur@),
            decreases path@.len() - i,
        {
            proof {
                assert(path@.take(i + 1).drop_last() =~= path@.take(i as int));
                assert(path@.take(i + 1).last() == path@[i as int]);
            }
            let c = path[i];
            if c == '/' {
                let piece = cur;
                cur = Vec::new();
                if !comp_step_exec(&mut stack, piece) {
                    proof {
                        lemma_comp_walk_stuck(path@, i + 1);
                    }
                    return Err(FsError::InvalidPath);
                }
            } else {
                cur.push(c);
            }
            i = i + 1;
        }
        assert(path@.take(path@.len() as int) =~= path@);
        if !comp_step_exec(&mut stack, cur) {
            return Err(FsError::InvalidPath);
        }
        Ok(stack)
    }

    /// A path's names without the last, and the last; invalid when the path
    /// has no names.
    pub fn split_path(path: &[char]) -> (r: Result<(Vec<Vec<char>>, Vec<char>), FsError>)
        ensures
            match path_comps(path@) {
                Some(c) => if c.len() == 0 {
                    r == Err::<(Vec<Vec<char>>, Vec<char>), FsError>(FsError::InvalidPath)
                } else {
                    r matches Ok((d, n)) && names_view(d@) == c.drop_last() && n@ == c.last()
                },
                None => r == Err::<(Vec<Vec<char>>, Vec<char>), FsError>(FsError::InvalidPath),
            },
    {
        let mut components = match Self::path_components(path) {
            Ok(c) => c,
            Err(e) => return Err(e),
        };
        if components.len() == 0 {
            return Err(FsError::InvalidPath);
        }
        let ghost before = names_view(components@);
        let name = components.pop().unwrap();
        assert(names_view(components@) =~= before.drop_last());
        Ok((components, name))
    }
}

/// The names a path stands for from the current directory `cwd`: an
/// absolute path's own names, a relative path's after those of `cwd`.
pub open spec fn full_path(cwd: Seq<Seq<char>>, path: Seq<char>) -> Option<Seq<Seq<char>>> {
    match path_comps(path) {
        Some(c) => if path.len() > 0 && path[0] == '/' {
            Some(c)
        } else {
            Some(cwd + c)
        },
        None => None,
    }
}

proof fn lemma_wf_root(ns: Seq<NodeView>)
    requires
        tree_wf(ns),
    ensures
        ns.len() >= 1,
        ns[0].alive && ns[0].is_dir && ns[0].parent == 0,
{
    reveal(tree_wf);
}

proof fn lemma_child_unique(ns: Seq<NodeView>, dir: int, name: Seq<char>, i: int)
    requires
        tree_wf(ns),
        1 <= i < ns.len(),
        ns[i].alive && ns[i].parent == dir && ns[i].name == name,
    ensures
        child(ns, dir, name) == i,
{
    reveal(tree_wf);
    let k = choose|k: int| 1 <= k < ns.len() && (#[trigger] ns[k]).alive && ns[k].parent == dir && ns[k].name == name;
    if k != i {
        assert(ns[i].name != ns[k].name);
    }
}

proof fn lemma_child_range(ns: Seq<NodeView>, dir: int, name: Seq<char>)
    ensures
        child(ns, dir, name) == -1 || (1 <= child(ns, dir, name) < ns.len() && ns[child(ns, dir, name)].alive
            && ns[child(ns, dir, name)].parent == dir && ns[child(ns, dir, name)].name == name),
{
}

proof fn lemma_resolve_dir(ns: Seq<NodeView>, comps: Seq<Seq<char>>)
    requires
        tree_wf(ns),
    ensures
        resolve(ns, comps) matches Ok(d) ==> 0 <= d < ns.len() && ns[d].alive && ns[d].is_dir,
    decreases comps.len(),
{
    reveal(tree_wf);
    if comps.len() > 0 {
        lemma_resolve_dir(ns, comps.drop_last());
        match resolve(ns, comps.drop_last()) {
            Ok(d) => {
                lemma_child_range(ns, d, comps.last());
            },
            Err(_) => {},
        }
    }
}

impl FileSystem {
    /// The live entry named `name` in directory `dir`, if any.
    pub fn find_child(&self, dir: usize, name: &Vec<char>) -> (r: Option<usize>)
        requires
            tree_wf(self.view_fs()),
        ensures
            match r {
                Some(i) => i == child(self.view_fs(), dir as int, name@) && 1 <= i < self.view_fs().len(),
                None => child(self.view_fs(), dir as int, name@) == -1,
            },
    {
        let ghost ns = self.view_fs();
        proof {
            lemma_wf_root(ns);
        }
        let mut i: usize = 1;
        while i < self.nodes.len()
            invariant
                ns == self.view_fs(),
                tree_wf(ns),
                1 <= i <= ns.len(),
                forall|j: int| 1 <= j < i ==> !((#[trigger] ns[j]).alive && ns[j].parent == dir && ns[j].name == name@),
            decreases ns.len() - i,
        {
            let n = &self.nodes[i];
            assert(ns[i as int] == n.view_node());
            if n.alive && n.parent == dir && same_name(&n.name, name) {
                proof {
                    lemma_child_unique(ns, dir as int, name@, i as int);
                }
                return Some(i);
            }
            i = i + 1;
        }
        None
    }

    /// The directory that names from the root lead to.
    pub fn get_dir_from_components(&self, components: &Vec<Vec<char>>) -> (r: Result<usize, FsError>)
        requires
            tree_wf(self.view_fs()),
        ensures
            match resolve(self.view_fs(), names_view(components@)) {
                Ok(d) => r matches Ok(i) && i == d,
                Err(e) => r == Err::<usize, FsError>(e),
            },
    {
        let ghost ns = self.view_fs();
        let ghost cs = names_view(components@);
        proof {
            lemma_wf_root(ns);
            assert(cs.take(0) =~= Seq::<Seq<char>>::empty());
        }
        let mut current: usize = 0;
        let mut k: usize = 0;
        while k < components.len()
            invariant
                ns == self.view_fs(),
                tree_wf(ns),
                cs == names_view(components@),
                k <= cs.len(),
                resolve(ns, cs.take(k as int)) == Ok::<int, FsError>(current as int),
                current < ns.len(),
            decreases cs.len() - k,
        {
            proof {
                assert(cs.take(k + 1).drop_last() =~= cs.take(k as int));
                assert(cs.take(k + 1).last() == components@[k as int]@);
            }
            match self.find_child(current, &components[k]) {
                None => {
                    proof {
                        lemma_resolve_stuck(ns, cs, k as int + 1, FsError::EntryNotFound);
                    }
                    return Err(FsError::EntryNotFound);
                },
                Some(c) => {
                    let is_dir = match &self.nodes[c].kind {
                        NodeKind::Directory(_) => true,
                        NodeKind::File(_) => false,
                    };
                    assert(ns[c as int] == self.nodes@[c as int].view_node());
                    if !is_dir {
                        proof {
                            lemma_resolve_stuck(ns, cs, k as int + 1, FsError::NotADirectory);
                        }
                        return Err(FsError::NotADirectory);
                    }
                    current = c;
                },
            }
            k = k + 1;
        }
        assert(cs.take(cs.len() as int) =~= cs);
        Ok(current)
    }

    /// The names a path stands for from the current directory.
    pub fn resolve_path(&self, path: &[char]) -> (r: Result<Vec<Vec<char>>, FsError>)
        ensures
            match full_path(self.cwd(), path@) {
                Some(c) => r matches Ok(v) && names_view(v@) == c,
                None => r == Err::<Vec<Vec<char>>, FsError>(FsError::InvalidPath),
            },
    {
        let comps = match Self::path_components(path) {
            Ok(c) => c,
            Err(e) => return Err(e),
        };
        if path.len() > 0 && path[0] == '/' {
            return Ok(comps);
        }
        let mut components: Vec<Vec<char>> = Vec::new();
        let mut i: usize = 0;
        while i < self.current_path.len()
            invariant
                i <= self.current_path@.len(),
                names_view(components@) == self.cwd().take(i as int),
            decreases self.current_path@.len() - i,
        {
            let c = chars_copy(&self.current_path[i]);
            let ghost before = names_view(components@);
            components.push(c);
            assert(names_view(components@) =~= before.push(self.current_path@[i as int]@));
            assert(self.cwd().take(i + 1) =~= self.cwd().take(i as int).push(self.cwd()[i as int]));
            assert(names_view(components@) =~= self.cwd().take(i + 1));
            i = i + 1;
        }
        assert(self.cwd().take(self.current_path@.len() as int) =~= self.cwd());
        let mut j: usize = 0;
        let ghost base = names_view(components@);
        while j < comps.len()
            invariant
                j <= comps@.len(),
                names_view(components@) == base + names_view(comps@).take(j as int),
            decreases comps@.len() - j,
        {
            let c = chars_copy(&comps[j]);
            let ghost before = names_view(components@);
            components.push(c);
            assert(names_view(components@) =~= before.push(comps@[j as int]@));
            assert(names_view(comps@).take(j + 1) =~= names_view(comps@).take(j as int).push(names_view(comps@)[j as int]));
            assert(names_view(components@) =~= base + names_view(comps@).take(j + 1));
            j = j + 1;
        }
        assert(names_view(comps@).take(comps@.len() as int) =~= names_view(comps@));
        Ok(components)
    }
}

fn chars_copy(s: &Vec<char>) -> (r: Vec<char>)
    ensures
        r@ == s@,
{
    let mut out: Vec<char> = Vec::new();
    let mut i: usize = 0;
    while i < s.len()
        invariant
            i <= s@.len(),
            out@ == s@.take(i as int),
        decreases s@.len() - i,
    {
        out.push(s[i]);
        i = i + 1;
        assert(out@ =~= s@.take(i as int));
    }
    assert(s@.take(s@.len() as int) =~= s@);
    out
}

/// Once resolving a prefix fails, resolving more names fails the same way.
proof fn lemma_resolve_stuck(ns: Seq<NodeView>, cs: Seq<Seq<char>>, k: int, e: FsError)
    requires
        0 <= k <= cs.len(),
        resolve(ns, cs.take(k)) == Err::<int, FsError>(e),
    ensures
        resolve(ns, cs) == Err::<int, FsError>(e),
    decreases cs.len() - k,
{
    if k == cs.len() {
        assert(cs.take(k) =~= cs);
    } else {
        assert(cs.take(k + 1).drop_last() =~= cs.take(k));
        lemma_resolve_stuck(ns, cs, k + 1, e);
    }
}

/// The table after making a new entry at `path` (read from the root), or
/// why it cannot be made: an invalid path, a missing or non-directory
/// parent, or an entry of that name already there.
pub open spec fn created(ns: Seq<NodeView>, path: Seq<char>, is_dir: bool, perm: Permission) -> Result<Seq<NodeView>, FsError> {
    match path_comps(path) {
        None => Err(FsError::InvalidPath),
        Some(c) => if c.len() == 0 {
            Err(FsError::InvalidPath)
        } else {
            match resolve(ns, c.drop_last()) {
                Err(e) => Err(e),
                Ok(d) => if child(ns, d, c.last()) >= 0 {
                    Err(FsError::AlreadyExists)
                } else {
                    Ok(ns.push(NodeView {
                        name: c.last(),
                        parent: d,
                        is_dir,
                        content: Seq::empty(),
                        permission: perm,
                        alive: true,
                    }))
                },
            }
        },
    }
}

proof fn lemma_push_wf(ns: Seq<NodeView>, node: NodeView)
    requires
        tree_wf(ns),
        0 <= node.parent < ns.len(),
        ns[node.parent].alive && ns[node.parent].is_dir,
        node.alive,
        child(ns, node.parent, node.name) == -1,
    ensures
        tree_wf(ns.push(node)),
{
    reveal(tree_wf);
    let nn = ns.push(node);
    assert forall|i: int| 1 <= i < nn.len() && (#[trigger] nn[i]).alive implies 0 <= nn[i].parent < i
        && nn[nn[i].parent].alive && nn[nn[i].parent].is_dir by {
        if i < ns.len() {
            assert(nn[i] == ns[i]);
            assert(nn[ns[i].parent] == ns[ns[i].parent]);
        } else {
            assert(nn[node.parent] == ns[node.parent]);
        }
    }
    assert forall|i: int, j: int|
        1 <= i < nn.len() && 1 <= j < nn.len() && i != j && (#[trigger] nn[i]).alive && (#[trigger] nn[j]).alive
            && nn[i].parent == nn[j].parent implies nn[i].name != nn[j].name by {
        if i < ns.len() && j < ns.len() {
            assert(nn[i] == ns[i] && nn[j] == ns[j]);
        } else if i < ns.len() {
            assert(nn[i] == ns[i]);
            if ns[i].name == node.name {
                assert(1 <= i < ns.len() && ns[i].alive && ns[i].parent == node.parent && ns[i].name == node.name);
            }
        } else {
            assert(nn[j] == ns[j]);
            if ns[j].name == node.name {
                assert(1 <= j < ns.len() && ns[j].alive && ns[j].parent == node.parent && ns[j].name == node.name);
            }
        }
    }
}

impl FileSystem {
    fn create_entry(&mut self, path: &[char], kind: NodeKind) -> (r: Result<(), FsError>)
        requires
            tree_wf(old(self).view_fs()),
            kind matches NodeKind::File(f) ==> f.content@ == Seq::<u8>::empty(),
        ensures
            tree_wf(final(self).view_fs()),
            final(self).cwd() == old(self).cwd(),
            match created(old(self).view_fs(), path@, kind is Directory, match kind {
                NodeKind::Directory(p) => p,
                NodeKind::File(f) => f.permission,
            }) {
                Ok(ns) => r is Ok && final(self).view_fs() == ns,
                Err(e) => r == Err::<(), FsError>(e) && final(self).view_fs() == old(self).view_fs(),
            },
    {
        let (dir_components, name) = match Self::split_path(path) {
            Ok(p) => p,
            Err(e) => return Err(e),
        };
        let ghost c = path_comps(path@).unwrap();
        proof {
            lemma_resolve_dir(self.view_fs(), names_view(dir_components@));
            assert(path_comps(path@) is Some);
            assert(names_view(dir_components@) == c.drop_last());
            assert(name@ == c.last());
        }
        let dir = match self.get_dir_from_components(&dir_components) {
            Ok(d) => d,
            Err(e) => return Err(e),
        };
        proof {
            let rr = resolve(self.view_fs(), names_view(dir_components@));
            assert(rr is Ok);
            let d = rr->Ok_0;
            assert(0 <= d < self.view_fs().len());
            assert(self.view_fs().len() == self.nodes@.len());
            assert(self.nodes@.len() == self.nodes.len());
            assert(dir as int == d);
        }
        assert(resolve(self.view_fs(), c.drop_last()) == Ok::<int, FsError>(dir as int));
        if self.find_child(dir, &name).is_some() {
            assert(child(self.view_fs(), dir as int, c.last()) >= 0);
            return Err(FsError::AlreadyExists);
        }
        let ghost before = self.view_fs();
        self.nodes.push(Node { name, parent: dir, kind, alive: true });
        proof {
            let node = self.nodes@.last().view_node();
            assert(self.view_fs() =~= before.push(node));
            lemma_push_wf(before, node);
        }
        Ok(())
    }
}

impl FileSystem {
    /// Makes an empty file at `path` (read from the root): refused for an
    /// invalid path, a missing or non-directory parent, or an entry of that
    /// name already there.
    pub fn create_file(&mut self, path: &[char], perm: Permission) -> (r: Result<(), FsError>)
        requires
            tree_wf(old(self).view_fs()),
        ensures
            tree_wf(final(self).view_fs()),
            final(self).cwd() == old(self).cwd(),
            match created(old(self).view_fs(), path@, false, perm) {
                Ok(ns) => r is Ok && final(self).view_fs() == ns,
                Err(e) => r == Err::<(), FsError>(e) && final(self).view_fs() == old(self).view_fs(),
            },
    {
        self.create_entry(path, NodeKind::File(File::new(perm)))
    }

    /// Makes an empty directory at `path` (read from the root): refused as
    /// `create_file` is.
    pub fn create_dir(&mut self, path: &[char], perm: Permission) -> (r: Result<(), FsError>)
        requires
            tree_wf(old(self).view_fs()),
        ensures
            tree_wf(final(self).view_fs()),
            final(self).cwd() == old(self).cwd(),
            match created(old(self).view_fs(), path@, true, perm) {
                Ok(ns) => r is Ok && final(self).view_fs() == ns,
                Err(e) => r == Err::<(), FsError>(e) && final(self).view_fs() == old(self).view_fs(),
            },
    {
        self.create_entry(path, NodeKind::Directory(perm))
    }
}

/// The file a path (from the root) names, or why it names none: an invalid
/// path, a missing or non-directory parent, no entry of that name, or a
/// directory.
pub open spec fn lookup_file(ns: Seq<NodeView>, path: Seq<char>) -> Result<int, FsError> {
    match path_comps(path) {
        None => Err(FsError::InvalidPath),
        Some(c) => if c.len() == 0 {
            Err(FsError::InvalidPath)
        } else {
            match resolve(ns, c.drop_last()) {
                Err(e) => Err(e),
                Ok(d) => {
                    let k = child(ns, d, c.last());
                    if k < 0 {
                        Err(FsError::EntryNotFound)
                    } else if ns[k].is_dir {
                        Err(FsError::NotAFile)
                    } else {
                        Ok(k)
                    }
                },
            }
        },
    }
}

impl FileSystem {
    /// The index of the file a path (from the root) names.
    fn file_index(&self, path: &[char]) -> (r: Result<usize, FsError>)
        requires
            tree_wf(self.view_fs()),
        ensures
            match lookup_file(self.view_fs(), path@) {
                Ok(k) => r matches Ok(i) && i == k && 1 <= k < self.view_fs().len(),
                Err(e) => r == Err::<usize, FsError>(e),
            },
    {
        let (dir_components, name) = match Self::split_path(path) {
            Ok(p) => p,
            Err(e) => return Err(e),
        };
        let ghost c = path_comps(path@).unwrap();
        proof {
            lemma_resolve_dir(self.view_fs(), names_view(dir_components@));
        }
        let dir = match self.get_dir_from_components(&dir_components) {
            Ok(d) => d,
            Err(e) => return Err(e),
        };
        proof {
            let d = resolve(self.view_fs(), c.drop_last())->Ok_0;
            assert(self.view_fs().len() == self.nodes@.len());
            assert(self.nodes@.len() == self.nodes.len());
            assert(dir as int == d);
        }
        match self.find_child(dir, &name) {
            None => Err(FsError::EntryNotFound),
            Some(k) => {
                assert(self.view_fs()[k as int] == self.nodes@[k as int].view_node());
                match &self.nodes[k].kind {
                    NodeKind::Directory(_) => Err(FsError::NotAFile),
                    NodeKind::File(_) => Ok(k),
                }
            },
        }
    }

    /// The file a path (from the root) names.
    pub fn get_file(&self, path: &[char]) -> (r: Result<&File, FsError>)
        requires
            tree_wf(self.view_fs()),
        ensures
            match lookup_file(self.view_fs(), path@) {
                Ok(k) => r matches Ok(f) && f.content@ == self.view_fs()[k].content && f.permission
                    == self.view_fs()[k].permission,
                Err(e) => r == Err::<&File, FsError>(e),
            },
    {
        let k = match self.file_index(path) {
            Ok(k) => k,
            Err(e) => return Err(e),
        };
        assert(self.view_fs()[k as int] == self.nodes@[k as int].view_node());
        match &self.nodes[k].kind {
            NodeKind::File(f) => Ok(f),
            NodeKind::Directory(_) => Err(FsError::NotAFile),
        }
    }

    /// The bytes of the file a path (from the root) names.
    pub fn read_file(&self, path: &[char]) -> (r: Result<&[u8], FsError>)
        requires
            tree_wf(self.view_fs()),
        ensures
            match lookup_file(self.view_fs(), path@) {
                Ok(k) => r matches Ok(b) && b@ == self.view_fs()[k].content,
                Err(e) => r == Err::<&[u8], FsError>(e),
            },
    {
        match self.get_file(path) {
            Ok(f) => Ok(f.content.as_slice()),
            Err(e) => Err(e),
        }
    }

    /// Writes to the file a path (from the root) names: its bytes become
    /// `content`, or have `content` appended unless `overwrite`. Refused
    /// where `lookup_file` refuses, and for a file without write permission.
    pub fn write_file(&mut self, path: &[char], content: &[u8], overwrite: bool) -> (r: Result<(), FsError>)
        requires
            tree_wf(old(self).view_fs()),
        ensures
            tree_wf(final(self).view_fs()),
            final(self).cwd() == old(self).cwd(),
            match lookup_file(old(self).view_fs(), path@) {
                Ok(k) => {
                    let n = old(self).view_fs()[k];
                    if !n.permission.write {
                        r == Err::<(), FsError>(FsError::PermissionDenied) && final(self).view_fs() == old(self).view_fs()
                    } else {
                        r is Ok && final(self).view_fs() == old(self).view_fs().update(
                            k,
                            NodeView { content: if overwrite { content@ } else { n.content + content@ }, ..n },
                        )
                    }
                },
                Err(e) => r == Err::<(), FsError>(e) && final(self).view_fs() == old(self).view_fs(),
            },
    {
        let k = match self.file_index(path) {
            Ok(k) => k,
            Err(e) => return Err(e),
        };
        let ghost before = self.view_fs();
        assert(before[k as int] == self.nodes@[k as int].view_node());
        let (perm, old_content) = match &self.nodes[k].kind {
            NodeKind::File(f) => (f.permission, f.content.clone()),
            NodeKind::Directory(p) => (*p, Vec::new()),
        };
        if !perm.write {
            return Err(FsError::PermissionDenied);
        }
        let mut new_content: Vec<u8> = if overwrite { Vec::new() } else { old_content };
        let ghost start = new_content@;
        let mut i: usize = 0;
        while i < content.len()
            invariant
                i <= content@.len(),
                new_content@ == start + content@.take(i as int),
            decreases content@.len() - i,
        {
            new_content.push(content[i]);
            i = i + 1;
            assert(new_content@ =~= start + content@.take(i as int));
        }
        assert(content@.take(content@.len() as int) =~= content@);
        let name = chars_copy(&self.nodes[k].name);
        let parent = self.nodes[k].parent;
        let node = Node { name, parent, kind: NodeKind::File(File { content: new_content, permission: perm }), alive: true };
        self.nodes.set(k, node);
        proof {
            let n = before[k as int];
            assert(self.view_fs() =~= before.update(
                k as int,
                NodeView { content: if overwrite { content@ } else { n.content + content@ }, ..n },
            ));
            reveal(tree_wf);
            let ns = self.view_fs();
            assert forall|i: int| 1 <= i < ns.len() && (#[trigger] ns[i]).alive implies 0 <= ns[i].parent < i
                && ns[ns[i].parent].alive && ns[ns[i].parent].is_dir by {
                assert(ns[i].parent == before[i].parent && ns[i].alive == before[i].alive);
                assert(before[i].alive);
                let p = before[i].parent;
                assert(ns[p].alive == before[p].alive && ns[p].is_dir == before[p].is_dir);
            }
            assert forall|i: int, j: int|
                1 <= i < ns.len() && 1 <= j < ns.len() && i != j && (#[trigger] ns[i]).alive && (#[trigger] ns[j]).alive
                    && ns[i].parent == ns[j].parent implies ns[i].name != ns[j].name by {
                assert(before[i].alive && before[j].alive);
            }
        }
        Ok(())
    }
}

/// The directory a path names from the current directory `cwd`, or why
/// it names none.
pub open spec fn dir_of_path(ns: Seq<NodeView>, cwd: Seq<Seq<char>>, path: Seq<char>) -> Result<int, FsError> {
    match full_path(cwd, path) {
        None => Err(FsError::InvalidPath),
        Some(c) => resolve(ns, c),
    }
}

/// The live entries of directory `dir` among the first `n` nodes, in table order.
pub open spec fn children_upto(ns: Seq<NodeView>, dir: int, n: int) -> Seq<int>
    decreases n,
{
    if n <= 1 {
        Seq::empty()
    } else {
        let rest = children_upto(ns, dir, n - 1);
        if ns[n - 1].alive && ns[n - 1].parent == dir {
            rest.push(n - 1)
        } else {
            rest
        }
    }
}

/// The live entries of directory `dir`, in table order.
pub open spec fn children(ns: Seq<NodeView>, dir: int) -> Seq<int> {
    children_upto(ns, dir, ns.len() as int)
}

/// The kind of an entry.
#[derive(Debug, Clone, Copy, PartialEq, Eq, Structural)]
pub enum EntryType {
    File,
    Directory,
}

impl FileSystem {
    /// The directory a path names from the current directory.
    pub fn get_dir(&self, path: &[char]) -> (r: Result<usize, FsError>)
        requires
            tree_wf(self.view_fs()),
        ensures
            match dir_of_path(self.view_fs(), self.cwd(), path@) {
                Ok(d) => r matches Ok(i) && i == d && 0 <= d < self.view_fs().len(),
                Err(e) => r == Err::<usize, FsError>(e),
            },
    {
        let components = match self.resolve_path(path) {
            Ok(c) => c,
            Err(e) => return Err(e),
        };
        proof {
            lemma_resolve_dir(self.view_fs(), names_view(components@));
        }
        self.get_dir_from_components(&components)
    }

    /// The names of the entries of the directory a path names (from the
    /// current directory).
    pub fn list_dir(&self, path: &[char]) -> (r: Result<Vec<Vec<char>>, FsError>)
        requires
            tree_wf(self.view_fs()),
        ensures
            match dir_of_path(self.view_fs(), self.cwd(), path@) {
                Ok(d) => r matches Ok(v) && names_view(v@) == children(self.view_fs(), d).map_values(
                    |i: int| self.view_fs()[i].name,
                ),
                Err(e) => r == Err::<Vec<Vec<char>>, FsError>(e),
            },
    {
        let d = match self.get_dir(path) {
            Ok(d) => d,
            Err(e) => return Err(e),
        };
        let ghost ns = self.view_fs();
        let mut out: Vec<Vec<char>> = Vec::new();
        let mut i: usize = 1;
        proof {
            lemma_wf_root(ns);
            assert(names_view(out@) =~= children_upto(ns, d as int, 1).map_values(|j: int| ns[j].name));
        }
        while i < self.nodes.len()
            invariant
                ns == self.view_fs(),
                1 <= i <= ns.len(),
                names_view(out@) == children_upto(ns, d as int, i as int).map_values(|j: int| ns[j].name),
            decreases ns.len() - i,
        {
            assert(ns[i as int] == self.nodes@[i as int].view_node());
            let ghost before = names_view(out@);
            if self.nodes[i].alive && self.nodes[i].parent == d {
                let nm = chars_copy(&self.nodes[i].name);
                out.push(nm);
                assert(names_view(out@) =~= before.push(ns[i as int].name));
            }
            proof {
                let cs = children_upto(ns, d as int, i + 1);
                let prev = children_upto(ns, d as int, i as int);
                if ns[i as int].alive && ns[i as int].parent == d {
                    assert(cs == prev.push(i as int));
                    assert(cs.map_values(|j: int| ns[j].name) =~= prev.map_values(|j: int| ns[j].name).push(ns[i as int].name));
                } else {
                    assert(cs == prev);
                }
            }
            i = i + 1;
        }
        Ok(out)
    }

    /// The kinds of the entries of the directory a path names (from the
    /// current directory), in the order `list_dir` gives their names.
    pub fn list_dir_entry_types(&self, path: &[char]) -> (r: Result<Vec<EntryType>, FsError>)
        requires
            tree_wf(self.view_fs()),
        ensures
            match dir_of_path(self.view_fs(), self.cwd(), path@) {
                Ok(d) => r matches Ok(v) && v@ == children(self.view_fs(), d).map_values(
                    |i: int| if self.view_fs()[i].is_dir { EntryType::Directory } else { EntryType::File },
                ),
                Err(e) => r == Err::<Vec<EntryType>, FsError>(e),
            },
    {
        let d = match self.get_dir(path) {
            Ok(d) => d,
            Err(e) => return Err(e),
        };
        let ghost ns = self.view_fs();
        let mut out: Vec<EntryType> = Vec::new();
        let mut i: usize = 1;
        proof {
            lemma_wf_root(ns);
            assert(out@ =~= children_upto(ns, d as int, 1).map_values(
                |j: int| if ns[j].is_dir { EntryType::Directory } else { EntryType::File },
            ));
        }
        while i < self.nodes.len()
            invariant
                ns == self.view_fs(),
                1 <= i <= ns.len(),
                out@ == children_upto(ns, d as int, i as int).map_values(
                    |j: int| if ns[j].is_dir { EntryType::Directory } else { EntryType::File },
                ),
            decreases ns.len() - i,
        {
            assert(ns[i as int] == self.nodes@[i as int].view_node());
            let ghost before = out@;
            let ghost kind = if ns[i as int].is_dir { EntryType::Directory } else { EntryType::File };
            if self.nodes[i].alive && self.nodes[i].parent == d {
                let t = match &self.nodes[i].kind {
                    NodeKind::File(_) => EntryType::File,
                    NodeKind::Directory(_) => EntryType::Directory,
                };
                out.push(t);
                assert(out@ =~= before.push(kind));
            }
            proof {
                let cs = children_upto(ns, d as int, i + 1);
                let prev = children_upto(ns, d as int, i as int);
                if ns[i as int].alive && ns[i as int].parent == d {
                    assert(cs == prev.push(i as int));
                    assert(cs.map_values(|j: int| if ns[j].is_dir { EntryType::Directory } else { EntryType::File })
                        =~= prev.map_values(|j: int| if ns[j].is_dir { EntryType::Directory } else { EntryType::File }).push(kind));
                } else {
                    assert(cs == prev);
                }
            }
            i = i + 1;
        }
        Ok(out)
    }
}

/// The entry a path names from the current directory: `Some(None)` for
/// the root, `Some(Some(k))` for node `k`, `None` when it names nothing.
pub open spec fn entry_of_path(ns: Seq<NodeView>, cwd: Seq<Seq<char>>, path: Seq<char>) -> Option<Option<int>> {
    match full_path(cwd, path) {
        None => None,
        Some(c) => if c.len() == 0 {
            Some(None)
        } else {
            match resolve(ns, c.drop_last()) {
                Err(_) => None,
                Ok(d) => if child(ns, d, c.last()) < 0 {
                    None
                } else {
                    Some(Some(child(ns, d, c.last())))
                },
            }
        },
    }
}

impl FileSystem {
    fn entry_index(&self, path: &[char]) -> (r: Option<Option<usize>>)
        requires
            tree_wf(self.view_fs()),
        ensures
            match entry_of_path(self.view_fs(), self.cwd(), path@) {
                None => r is None,
                Some(None) => r == Some(None::<usize>),
                Some(Some(k)) => r matches Some(Some(i)) && i == k && 1 <= k < self.view_fs().len(),
            },
    {
        let mut components = match self.resolve_path(path) {
            Ok(c) => c,
            Err(_) => return None,
        };
        if components.len() == 0 {
            return Some(None);
        }
        let ghost cv = names_view(components@);
        let last = components.pop().unwrap();
        assert(names_view(components@) =~= cv.drop_last());
        proof {
            lemma_resolve_dir(self.view_fs(), names_view(components@));
        }
        let dir = match self.get_dir_from_components(&components) {
            Ok(d) => d,
            Err(_) => return None,
        };
        proof {
            let d = resolve(self.view_fs(), cv.drop_last())->Ok_0;
            assert(self.view_fs().len() == self.nodes@.len());
            assert(self.nodes@.len() == self.nodes.len());
            assert(dir as int == d);
        }
        match self.find_child(dir, &last) {
            None => None,
            Some(k) => Some(Some(k)),
        }
    }

    /// Whether a path (from the current directory) names a directory; the
    /// root is one.
    pub fn is_dir(&self, path: &[char]) -> (r: bool)
        requires
            tree_wf(self.view_fs()),
        ensures
            r == match entry_of_path(self.view_fs(), self.cwd(), path@) {
                None => false,
                Some(None) => true,
                Some(Some(k)) => self.view_fs()[k].is_dir,
            },
    {
        match self.entry_index(path) {
            None => false,
            Some(None) => true,
            Some(Some(k)) => {
                assert(self.view_fs()[k as int] == self.nodes@[k as int].view_node());
                match &self.nodes[k].kind {
                    NodeKind::Directory(_) => true,
                    NodeKind::File(_) => false,
                }
            },
        }
    }

    /// Whether a path (from the current directory) names anything; the root
    /// exists.
    pub fn path_exists(&self, path: &[char]) -> (r: bool)
        requires
            tree_wf(self.view_fs()),
        ensures
            r == (entry_of_path(self.view_fs(), self.cwd(), path@) is Some),
    {
        self.entry_index(path).is_some()
    }
}

/// Whether node `i` is node `k` or lies under it.
pub open spec fn descends(ns: Seq<NodeView>, i: int, k: int) -> bool
    decreases i,
{
    if i == k {
        true
    } else if i <= 0 || i >= ns.len() || ns[i].parent >= i || ns[i].parent < 0 {
        false
    } else {
        descends(ns, ns[i].parent, k)
    }
}

/// The table with node `k` and everything under it removed.
pub open spec fn removed_tree(ns: Seq<NodeView>, k: int) -> Seq<NodeView> {
    Seq::new(ns.len(), |i: int| if descends(ns, i, k) { NodeView { alive: false, ..ns[i] } } else { ns[i] })
}

/// Whether directory `k` has live entries.
pub open spec fn has_entries(ns: Seq<NodeView>, k: int) -> bool {
    exists|i: int| 1 <= i < ns.len() && (#[trigger] ns[i]).alive && ns[i].parent == k
}

/// The table after removing what a path (from the root) names, or why it
/// is not removed: the path does not name an entry, the entry is a
/// directory and `del_dir` is not set, or it is a directory with entries
/// and `recursive` is not set. A removed directory goes with everything
/// under it.
pub open spec fn removal(ns: Seq<NodeView>, path: Seq<char>, del_dir: bool, recursive: bool) -> Result<Seq<NodeView>, FsError> {
    match path_comps(path) {
        None => Err(FsError::InvalidPath),
        Some(c) => if c.len() == 0 {
            Err(FsError::InvalidPath)
        } else {
            match resolve(ns, c.drop_last()) {
                Err(e) => Err(e),
                Ok(d) => {
                    let k = child(ns, d, c.last());
                    if k < 0 {
                        Err(FsError::EntryNotFound)
                    } else if ns[k].is_dir && !del_dir {
                        Err(FsError::NotADirectory)
                    } else if ns[k].is_dir && !recursive && has_entries(ns, k) {
                        Err(FsError::DirectoryNotEmpty)
                    } else {
                        Ok(removed_tree(ns, k))
                    }
                },
            }
        },
    }
}

fn killed(n: &Node) -> (r: Node)
    ensures
        r.view_node() == (NodeView { alive: false, ..n.view_node() }),
{
    let kind = match &n.kind {
        NodeKind::File(f) => NodeKind::File(File { content: f.content.clone(), permission: f.permission }),
        NodeKind::Directory(p) => NodeKind::Directory(*p),
    };
    Node { name: chars_copy(&n.name), parent: n.parent, kind, alive: false }
}

proof fn lemma_remove_wf(ns: Seq<NodeView>, k: int)
    requires
        tree_wf(ns),
        1 <= k < ns.len(),
    ensures
        tree_wf(removed_tree(ns, k)),
{
    reveal(tree_wf);
    let nn = removed_tree(ns, k);
    assert(!descends(ns, 0, k));
    assert forall|i: int| 1 <= i < nn.len() && (#[trigger] nn[i]).alive implies 0 <= nn[i].parent < i
        && nn[nn[i].parent].alive && nn[nn[i].parent].is_dir by {
        assert(!descends(ns, i, k));
        assert(ns[i].alive);
        let p = ns[i].parent;
        assert(!descends(ns, p, k));
    }
    assert forall|i: int, j: int|
        1 <= i < nn.len() && 1 <= j < nn.len() && i != j && (#[trigger] nn[i]).alive && (#[trigger] nn[j]).alive
            && nn[i].parent == nn[j].parent implies nn[i].name != nn[j].name by {
        assert(!descends(ns, i, k) && !descends(ns, j, k));
    }
}

impl FileSystem {
    /// Removes what a path (from the root) names, as `removal` states.
    pub fn remove(&mut self, path: &[char], del_dir: bool, recursive: bool) -> (r: Result<(), FsError>)
        requires
            tree_wf(old(self).view_fs()),
        ensures
            tree_wf(final(self).view_fs()),
            final(self).cwd() == old(self).cwd(),
            match removal(old(self).view_fs(), path@, del_dir, recursive) {
                Ok(ns) => r is Ok && final(self).view_fs() == ns,
                Err(e) => r == Err::<(), FsError>(e) && final(self).view_fs() == old(self).view_fs(),
            },
    {
        let (parent_components, name) = match Self::split_path(path) {
            Ok(p) => p,
            Err(e) => return Err(e),
        };
        let ghost c = path_comps(path@).unwrap();
        let ghost ns = self.view_fs();
        proof {
            lemma_resolve_dir(ns, names_view(parent_components@));
            lemma_wf_root(ns);
        }
        let parent = match self.get_dir_from_components(&parent_components) {
            Ok(d) => d,
            Err(e) => return Err(e),
        };
        let k = match self.find_child(parent, &name) {
            None => return Err(FsError::EntryNotFound),
            Some(k) => k,
        };
        assert(ns[k as int] == self.nodes@[k as int].view_node());
        let is_dir = match &self.nodes[k].kind {
            NodeKind::Directory(_) => true,
            NodeKind::File(_) => false,
        };
        if is_dir && !del_dir {
            return Err(FsError::NotADirectory);
        }
        proof {
            assert(resolve(ns, c.drop_last()) == Ok::<int, FsError>(parent as int));
            assert(child(ns, parent as int, c.last()) == k);
            assert(ns[k as int].is_dir == is_dir);
        }
        if is_dir && !recursive {
            assert(removal(ns, path@, del_dir, recursive) == if has_entries(ns, k as int) {
                Err::<Seq<NodeView>, FsError>(FsError::DirectoryNotEmpty)
            } else {
                Ok::<Seq<NodeView>, FsError>(removed_tree(ns, k as int))
            });
            let mut j: usize = 1;
            while j < self.nodes.len()
                invariant
                    ns == self.view_fs(),
                    ns == old(self).view_fs(),
                    *self == *old(self),
                    tree_wf(ns),
                    removal(ns, path@, del_dir, recursive) == if has_entries(ns, k as int) {
                        Err::<Seq<NodeView>, FsError>(FsError::DirectoryNotEmpty)
                    } else {
                        Ok::<Seq<NodeView>, FsError>(removed_tree(ns, k as int))
                    },
                    1 <= j <= ns.len(),
                    forall|q: int| 1 <= q < j ==> !((#[trigger] ns[q]).alive && ns[q].parent == k),
                decreases ns.len() - j,
            {
                assert(ns[j as int] == self.nodes@[j as int].view_node());
                if self.nodes[j].alive && self.nodes[j].parent == k {
                    assert(ns[j as int].alive && ns[j as int].parent == k);
                    assert(has_entries(ns, k as int));
                    return Err(FsError::DirectoryNotEmpty);
                }
                j = j + 1;
            }
        }
        // Mark node `k` and every node under it.
        let n = self.nodes.len();
        let mut desc: Vec<bool> = Vec::new();
        let mut i: usize = 0;
        while i < n
            invariant
                ns == self.view_fs(),
                *self == *old(self),
                n == ns.len(),
                i <= n,
                desc@.len() == i,
                forall|q: int| 0 <= q < i ==> #[trigger] desc@[q] == descends(ns, q, k as int),
            decreases n - i,
        {
            assert(ns[i as int] == self.nodes@[i as int].view_node());
            let p = self.nodes[i].parent;
            let d = i == k || (i > 0 && p < i && desc[p]);
            desc.push(d);
            i = i + 1;
        }
        let mut m: usize = 0;
        while m < n
            invariant
                n == ns.len(),
                self.nodes@.len() == n,
                self.current_path == old(self).current_path,
                m <= n,
                desc@.len() == n,
                forall|q: int| 0 <= q < n ==> #[trigger] desc@[q] == descends(ns, q, k as int),
                forall|q: int| 0 <= q < n ==> #[trigger] view_nodes(self.nodes@)[q] == (if q < m && descends(ns, q, k as int) {
                    NodeView { alive: false, ..ns[q] }
                } else {
                    ns[q]
                }),
            decreases n - m,
        {
            if desc[m] {
                let nk = killed(&self.nodes[m]);
                let ghost before = self.nodes@;
                let ghost vb = view_nodes(self.nodes@);
                assert(vb[m as int] == ns[m as int]);
                self.nodes.set(m, nk);
                proof {
                    assert forall|q: int| 0 <= q < n implies #[trigger] view_nodes(self.nodes@)[q] == (if q < m + 1
                        && descends(ns, q, k as int) {
                        NodeView { alive: false, ..ns[q] }
                    } else {
                        ns[q]
                    }) by {
                        if q != m {
                            assert(self.nodes@[q] == before[q]);
                            assert(vb[q] == view_nodes(self.nodes@)[q]);
                        } else {
                            assert(before[q].view_node() == vb[q]);
                        }
                    }
                }
            }
            m = m + 1;
        }
        proof {
            assert(self.view_fs() =~= removed_tree(ns, k as int));
            lemma_remove_wf(ns, k as int);
            if is_dir && !recursive {
                assert(!has_entries(ns, k as int));
            }
        }
        Ok(())
    }
}

/// Two tables have the same tree: the same nodes with the same names,
/// parents, kinds and liveness.
pub open spec fn same_shape(a: Seq<NodeView>, b: Seq<NodeView>) -> bool {
    &&& a.len() == b.len()
    &&& forall|i: int| 0 <= i < a.len() ==> (#[trigger] a[i]).name == b[i].name && a[i].parent == b[i].parent
        && a[i].is_dir == b[i].is_dir && a[i].alive == b[i].alive
}

proof fn lemma_same_shape_wf(a: Seq<NodeView>, b: Seq<NodeView>)
    requires
        same_shape(a, b),
        tree_wf(a),
    ensures
        tree_wf(b),
{
    reveal(tree_wf);
    assert(a[0].name == b[0].name);
    assert forall|i: int| 1 <= i < b.len() && (#[trigger] b[i]).alive implies 0 <= b[i].parent < i
        && b[b[i].parent].alive && b[b[i].parent].is_dir by {
        assert(a[i].alive);
        let p = a[i].parent;
        assert(a[p].alive == b[p].alive && a[p].is_dir == b[p].is_dir);
    }
    assert forall|i: int, j: int|
        1 <= i < b.len() && 1 <= j < b.len() && i != j && (#[trigger] b[i]).alive && (#[trigger] b[j]).alive
            && b[i].parent == b[j].parent implies b[i].name != b[j].name by {
        assert(a[i].alive && a[j].alive);
    }
}

proof fn lemma_same_shape_child(a: Seq<NodeView>, b: Seq<NodeView>, dir: int, name: Seq<char>)
    requires
        same_shape(a, b),
        tree_wf(a),
    ensures
        child(a, dir, name) == child(b, dir, name),
{
    lemma_same_shape_wf(a, b);
    if exists|i: int| 1 <= i < a.len() && (#[trigger] a[i]).alive && a[i].parent == dir && a[i].name == name {
        let i = choose|i: int| 1 <= i < a.len() && (#[trigger] a[i]).alive && a[i].parent == dir && a[i].name == name;
        assert(b[i].alive && b[i].parent == dir && b[i].name == name);
        lemma_child_unique(a, dir, name, i);
        lemma_child_unique(b, dir, name, i);
    } else if exists|i: int| 1 <= i < b.len() && (#[trigger] b[i]).alive && b[i].parent == dir && b[i].name == name {
        let i = choose|i: int| 1 <= i < b.len() && (#[trigger] b[i]).alive && b[i].parent == dir && b[i].name == name;
        assert(a[i].alive && a[i].parent == dir && a[i].name == name);
    }
}

proof fn lemma_same_shape_resolve(a: Seq<NodeView>, b: Seq<NodeView>, comps: Seq<Seq<char>>)
    requires
        same_shape(a, b),
        tree_wf(a),
    ensures
        resolve(a, comps) == resolve(b, comps),
    decreases comps.len(),
{
    if comps.len() > 0 {
        lemma_same_shape_resolve(a, b, comps.drop_last());
        match resolve(a, comps.drop_last()) {
            Ok(d) => {
                lemma_same_shape_child(a, b, d, comps.last());
                lemma_child_range(a, d, comps.last());
            },
            Err(_) => {},
        }
    }
}

proof fn lemma_same_shape_lookup(a: Seq<NodeView>, b: Seq<NodeView>, path: Seq<char>)
    requires
        same_shape(a, b),
        tree_wf(a),
    ensures
        lookup_file(a, path) == lookup_file(b, path),
{
    match path_comps(path) {
        Some(c) => if c.len() > 0 {
            lemma_same_shape_resolve(a, b, c.drop_last());
            match resolve(a, c.drop_last()) {
                Ok(d) => {
                    lemma_same_shape_child(a, b, d, c.last());
                    lemma_child_range(a, d, c.last());
                },
                Err(_) => {},
            }
        },
        None => {},
    }
}

/// Reading a file gives back what writing it wrote: after a write that
/// replaced the file's bytes, the path names the same file, which holds the
/// bytes written; after one that appended, it holds the old bytes and then
/// the new ones.
pub proof fn lemma_write_then_read(ns: Seq<NodeView>, path: Seq<char>, content: Seq<u8>, overwrite: bool)
    requires
        tree_wf(ns),
        lookup_file(ns, path) is Ok,
        ns[lookup_file(ns, path)->Ok_0].permission.write,
    ensures
        ({
            let k = lookup_file(ns, path)->Ok_0;
            let n = ns[k];
            let after = ns.update(k, NodeView { content: if overwrite { content } else { n.content + content }, ..n });
            &&& lookup_file(after, path) == Ok::<int, FsError>(k)
            &&& overwrite ==> after[k].content == content
            &&& !overwrite ==> after[k].content == n.content + content
        }),
{
    let k = lookup_file(ns, path)->Ok_0;
    let n = ns[k];
    let after = ns.update(k, NodeView { content: if overwrite { content } else { n.content + content }, ..n });
    match path_comps(path) {
        Some(c) => {
            lemma_resolve_dir(ns, c.drop_last());
            lemma_child_range(ns, resolve(ns, c.drop_last())->Ok_0, c.last());
        },
        None => {},
    }
    assert(0 <= k < ns.len());
    assert(same_shape(ns, after));
    lemma_same_shape_lookup(ns, after, path);
}

/// A file made at a path is found there afterwards, empty and with the
/// permissions it was made with.
pub proof fn lemma_create_then_lookup(ns: Seq<NodeView>, path: Seq<char>, perm: Permission)
    requires
        tree_wf(ns),
        created(ns, path, false, perm) is Ok,
    ensures
        ({
            let after = created(ns, path, false, perm)->Ok_0;
            &&& lookup_file(after, path) == Ok::<int, FsError>(ns.len() as int)
            &&& after[ns.len() as int].content == Seq::<u8>::empty()
            &&& after[ns.len() as int].permission == perm
        }),
{
    let c = path_comps(path)->Some_0;
    let d = resolve(ns, c.drop_last())->Ok_0;
    let after = created(ns, path, false, perm)->Ok_0;
    lemma_resolve_dir(ns, c.drop_last());
    let node = after[ns.len() as int];
    lemma_push_wf(ns, node);
    lemma_resolve_push(ns, node, c.drop_last());
    lemma_child_unique(after, d, c.last(), ns.len() as int);
}

/// Adding a node changes no directory that names lead to.
proof fn lemma_resolve_push(ns: Seq<NodeView>, node: NodeView, comps: Seq<Seq<char>>)
    requires
        tree_wf(ns),
        resolve(ns, comps) is Ok,
        0 <= node.parent < ns.len(),
        ns[node.parent].alive && ns[node.parent].is_dir,
        node.alive,
        child(ns, node.parent, node.name) == -1,
    ensures
        resolve(ns.push(node), comps) == resolve(ns, comps),
    decreases comps.len(),
{
    if comps.len() > 0 {
        assert(resolve(ns, comps.drop_last()) is Ok);
        lemma_resolve_push(ns, node, comps.drop_last());
        let d = resolve(ns, comps.drop_last())->Ok_0;
        let k = child(ns, d, comps.last());
        lemma_child_range(ns, d, comps.last());
        lemma_push_wf(ns, node);
        let nn = ns.push(node);
        assert(nn[k] == ns[k]);
        lemma_child_unique(nn, d, comps.last(), k);
    }
}

/// What `remove` removed is gone: the path no longer names a file.
pub proof fn lemma_remove_then_lookup(ns: Seq<NodeView>, path: Seq<char>, del_dir: bool, recursive: bool)
    requires
        tree_wf(ns),
        removal(ns, path, del_dir, recursive) is Ok,
    ensures
        lookup_file(removal(ns, path, del_dir, recursive)->Ok_0, path) is Err,
{
    let c = path_comps(path)->Some_0;
    let d = resolve(ns, c.drop_last())->Ok_0;
    let k = child(ns, d, c.last());
    lemma_child_range(ns, d, c.last());
    lemma_resolve_dir(ns, c.drop_last());
    let after = removed_tree(ns, k);
    lemma_remove_wf(ns, k);
    match resolve(after, c.drop_last()) {
        Ok(d2) => {
            let k2 = child(after, d2, c.last());
            lemma_child_range(after, d2, c.last());
            if k2 >= 0 {
                lemma_resolve_removed(ns, k, c.drop_last());
                assert(d2 == d);
                assert(after[k2].alive);
                assert(!descends(ns, k2, k));
                assert(ns[k2].alive && ns[k2].parent == d && ns[k2].name == c.last());
                lemma_child_unique(ns, d, c.last(), k2);
            }
        },
        Err(_) => {},
    }
}

/// What `remove` removed is gone, whatever its kind: the path names no
/// entry any more, and no path through it leads anywhere, so nothing that
/// was below a removed directory remains reachable; every entry outside the
/// removed subtree is as it was.
pub proof fn lemma_remove_then_gone(ns: Seq<NodeView>, path: Seq<char>, del_dir: bool, recursive: bool)
    requires
        tree_wf(ns),
        removal(ns, path, del_dir, recursive) is Ok,
    ensures
        ({
            let after = removal(ns, path, del_dir, recursive)->Ok_0;
            let c = path_comps(path)->Some_0;
            &&& resolve(after, c.drop_last()) matches Ok(d) ==> child(after, d, c.last()) < 0
            &&& forall|more: Seq<Seq<char>>| #[trigger] resolve(after, c + more) is Err
            &&& after.len() == ns.len()
            &&& forall|i: int|
                0 <= i < ns.len() && !descends(ns, i, child(ns, resolve(ns, c.drop_last())->Ok_0, c.last()))
                    ==> #[trigger] after[i] == ns[i]
        }),
{
    let c = path_comps(path)->Some_0;
    let d = resolve(ns, c.drop_last())->Ok_0;
    let k = child(ns, d, c.last());
    lemma_child_range(ns, d, c.last());
    lemma_resolve_dir(ns, c.drop_last());
    let after = removed_tree(ns, k);
    lemma_remove_wf(ns, k);
    match resolve(after, c.drop_last()) {
        Ok(d2) => {
            let k2 = child(after, d2, c.last());
            lemma_child_range(after, d2, c.last());
            if k2 >= 0 {
                lemma_resolve_removed(ns, k, c.drop_last());
                assert(d2 == d);
                assert(after[k2].alive);
                assert(!descends(ns, k2, k));
                assert(ns[k2].alive && ns[k2].parent == d && ns[k2].name == c.last());
                lemma_child_unique(ns, d, c.last(), k2);
            }
        },
        Err(_) => {},
    }
    assert(c.len() > 0);
    assert(resolve(after, c) is Err);
    assert forall|more: Seq<Seq<char>>| #[trigger] resolve(after, c + more) is Err by {
        lemma_resolve_err_extends(after, c, more);
    }
}

/// Names that lead nowhere lead nowhere however they go on.
proof fn lemma_resolve_err_extends(ns: Seq<NodeView>, comps: Seq<Seq<char>>, more: Seq<Seq<char>>)
    requires
        resolve(ns, comps) is Err,
    ensures
        resolve(ns, comps + more) is Err,
    decreases more.len(),
{
    if more.len() == 0 {
        assert(comps + more =~= comps);
    } else {
        lemma_resolve_err_extends(ns, comps, more.drop_last());
        assert((comps + more).drop_last() =~= comps + more.drop_last());
    }
}

/// The nodes listed among the first `n` are exactly the live nodes among
/// them (past the root) whose parent is `dir`.
proof fn lemma_children_upto_members(ns: Seq<NodeView>, dir: int, n: int)
    requires
        n <= ns.len(),
    ensures
        forall|j: int| #[trigger] children_upto(ns, dir, n).contains(j) <==> (1 <= j < n && ns[j].alive
            && ns[j].parent == dir),
    decreases n,
{
    if n > 1 {
        lemma_children_upto_members(ns, dir, n - 1);
        let rest = children_upto(ns, dir, n - 1);
        let cur = children_upto(ns, dir, n);
        assert forall|j: int| #[trigger] cur.contains(j) <==> (1 <= j < n && ns[j].alive && ns[j].parent
            == dir) by {
            if ns[n - 1].alive && ns[n - 1].parent == dir {
                assert(cur == rest.push(n - 1));
                if cur.contains(j) && j != n - 1 {
                    let k = choose|k: int| 0 <= k < cur.len() && #[trigger] cur[k] == j;
                    assert(k < rest.len());
                    assert(rest[k] == j);
                    assert(rest.contains(j));
                }
                if 1 <= j < n - 1 && ns[j].alive && ns[j].parent == dir {
                    assert(rest.contains(j));
                    let k = choose|k: int| 0 <= k < rest.len() && #[trigger] rest[k] == j;
                    assert(cur[k] == j);
                }
                if j == n - 1 {
                    assert(cur[rest.len() as int] == j);
                }
            } else {
                assert(cur == rest);
                if 1 <= j < n - 1 && ns[j].alive && ns[j].parent == dir {
                    assert(rest.contains(j));
                }
                if rest.contains(j) {
                    assert(1 <= j < n - 1);
                }
            }
        }
    } else {
        assert forall|j: int| #[trigger] children_upto(ns, dir, n).contains(j) <==> (1 <= j < n && ns[j].alive
            && ns[j].parent == dir) by {
            assert(children_upto(ns, dir, n) == Seq::<int>::empty());
        }
    }
}

/// Listing a directory gives exactly the names of its live entries: a name
/// is listed if and only if looking it up in the directory finds an entry.
pub proof fn lemma_list_names_live(ns: Seq<NodeView>, dir: int, name: Seq<char>)
    ensures
        children(ns, dir).map_values(|i: int| ns[i].name).contains(name) <==> child(ns, dir, name) >= 0,
{
    let cs = children(ns, dir);
    let names = cs.map_values(|i: int| ns[i].name);
    lemma_children_upto_members(ns, dir, ns.len() as int);
    if names.contains(name) {
        let k = choose|k: int| 0 <= k < names.len() && #[trigger] names[k] == name;
        let j = cs[k];
        assert(cs.contains(j));
        assert(1 <= j < ns.len() && ns[j].alive && ns[j].parent == dir && ns[j].name == name);
    }
    if child(ns, dir, name) >= 0 {
        let j = child(ns, dir, name);
        assert(1 <= j < ns.len() && ns[j].alive && ns[j].parent == dir && ns[j].name == name);
        assert(cs.contains(j));
        let k = choose|k: int| 0 <= k < cs.len() && #[trigger] cs[k] == j;
        assert(names[k] == name);
    }
}

/// After a successful removal the parent's listing no longer holds the
/// removed name.
pub proof fn lemma_remove_then_unlisted(ns: Seq<NodeView>, path: Seq<char>, del_dir: bool, recursive: bool)
    requires
        tree_wf(ns),
        removal(ns, path, del_dir, recursive) is Ok,
    ensures
        ({
            let after = removal(ns, path, del_dir, recursive)->Ok_0;
            let c = path_comps(path)->Some_0;
            resolve(after, c.drop_last()) matches Ok(d) ==> !children(after, d).map_values(
                |i: int| after[i].name,
            ).contains(c.last())
        }),
{
    lemma_remove_then_gone(ns, path, del_dir, recursive);
    let after = removal(ns, path, del_dir, recursive)->Ok_0;
    let c = path_comps(path)->Some_0;
    if resolve(after, c.drop_last()) is Ok {
        let d = resolve(after, c.drop_last())->Ok_0;
        lemma_list_names_live(after, d, c.last());
    }
}

/// Removing a subtree does not change where names lead, where they still lead.
proof fn lemma_resolve_removed(ns: Seq<NodeView>, k: int, comps: Seq<Seq<char>>)
    requires
        tree_wf(ns),
        1 <= k < ns.len(),
        resolve(removed_tree(ns, k), comps) is Ok,
    ensures
        resolve(removed_tree(ns, k), comps) == resolve(ns, comps),
    decreases comps.len(),
{
    let after = removed_tree(ns, k);
    if comps.len() > 0 {
        assert(resolve(after, comps.drop_last()) is Ok);
        lemma_resolve_removed(ns, k, comps.drop_last());
        let d = resolve(after, comps.drop_last())->Ok_0;
        let k2 = child(after, d, comps.last());
        lemma_child_range(after, d, comps.last());
        lemma_remove_wf(ns, k);
        assert(after[k2].alive);
        assert(!descends(ns, k2, k));
        assert(ns[k2] == NodeView { alive: ns[k2].alive, ..after[k2] });
        lemma_child_unique(ns, d, comps.last(), k2);
    }
}

impl Default for FileSystem {
    fn default() -> (r: Self)
        ensures
            tree_wf(r.view_fs()),
            r.view_fs().len() == 1,
            r.view_fs()[0].permission == Permission::all_spec(),
            r.cwd() == Seq::<Seq<char>>::empty(),
    {
        FileSystem::new()
    }
}

/// Makes the system directories: `/logs`, with all permissions, then
/// `/proc`, read-only. Gives the first error met.
pub fn setup_system_files(fs: &mut FileSystem) -> (r: Result<(), FsError>)
    requires
        tree_wf(old(fs).view_fs()),
    ensures
        tree_wf(final(fs).view_fs()),
        match created(old(fs).view_fs(), seq!['/', 'l', 'o', 'g', 's'], true, Permission::all_spec()) {
            Err(e) => r == Err::<(), FsError>(e) && final(fs).view_fs() == old(fs).view_fs(),
            Ok(n1) => match created(n1, seq!['/', 'p', 'r', 'o', 'c'], true, Permission { read: true, write: false, execute: false }) {
                Err(e) => r == Err::<(), FsError>(e) && final(fs).view_fs() == n1,
                Ok(n2) => r is Ok && final(fs).view_fs() == n2,
            },
        },
{
    let logs: [char; 5] = ['/', 'l', 'o', 'g', 's'];
    let procs: [char; 5] = ['/', 'p', 'r', 'o', 'c'];
    assert(logs@ =~= seq!['/', 'l', 'o', 'g', 's']);
    assert(procs@ =~= seq!['/', 'p', 'r', 'o', 'c']);
    match fs.create_dir(&logs, Permission::all()) {
        Ok(()) => {},
        Err(e) => return Err(e),
    }
    fs.create_dir(&procs, Permission::read())
}

} // verus!
