//! An in-memory model of the filesystem: a finite map from paths to
//! nodes. Every entry is identified by the path the engine uses for it;
//! the model does not traverse symbolic links, it records them.

use vstd::prelude::*;
use vstd::string::StrSliceExecFns;
use vstd::string::StringExecFns;

use crate::paths::{parent_of, parent_path, under, under_set};
use crate::text::str_eq;
use crate::paths::is_under;

verus! {

/// The root path `/`.
pub open spec fn root_path() -> Seq<char> {
    seq!['/']
}

/// Does something exist at `p`? The root always does; other paths
/// exist when the map holds them.
pub open spec fn exists_at(m: Map<Seq<char>, NodeV>, p: Seq<char>) -> bool {
    p == root_path() || m.contains_key(p)
}

/// Is there a directory entry at `p`?
pub open spec fn dir_at(m: Map<Seq<char>, NodeV>, p: Seq<char>) -> bool {
    m.contains_key(p) && m[p] is Dir
}

/// Is there a regular file or a symbolic link at `p`?
pub open spec fn file_or_link_at(m: Map<Seq<char>, NodeV>, p: Seq<char>) -> bool {
    m.contains_key(p) && !(m[p] is Dir)
}

/// Can an entry be created at `p`: is its parent a directory? Paths
/// whose parent is the root or the empty path (the working directory)
/// need no entry for it.
pub open spec fn parent_ok(m: Map<Seq<char>, NodeV>, p: Seq<char>) -> bool {
    match parent_path(p) {
        Option::None => true,
        Option::Some(q) => q.len() == 0 || q == root_path() || dir_at(m, q),
    }
}

/// One filesystem entry: a directory, a regular file, or a symbolic
/// link with the path it points at.
#[derive(Debug, PartialEq, Eq)]
pub enum Node {
    Dir,
    File,
    Symlink { target: String },
}

/// The mathematical content of a [`Node`].
pub enum NodeV {
    Dir,
    File,
    Symlink { target: Seq<char> },
}

impl View for Node {
    type V = NodeV;

    open spec fn view(&self) -> NodeV {
        match self {
            Node::Dir => NodeV::Dir,
            Node::File => NodeV::File,
            Node::Symlink { target } => NodeV::Symlink { target: target@ },
        }
    }
}

impl Node {
    /// A copy of this node.
    pub fn duplicate(&self) -> (r: Node)
        ensures
            r@ == self@,
    {
        match self {
            Node::Dir => Node::Dir,
            Node::File => Node::File,
            Node::Symlink { target } => Node::Symlink { target: target.clone() },
        }
    }
}

/// No two entries share a path.
pub open spec fn unique_keys(es: Seq<(String, Node)>) -> bool {
    forall|i: int, j: int| 0 <= i < j < es.len() ==> es[i].0@ != es[j].0@
}

/// The map an entry list denotes; a later entry for the same path wins,
/// though the well-formed lists the engine keeps never repeat a path.
pub closed spec fn map_of(es: Seq<(String, Node)>) -> Map<Seq<char>, NodeV>
    decreases es.len(),
{
    if es.len() == 0 {
        Map::empty()
    } else {
        map_of(es.drop_last()).insert(es.last().0@, es.last().1@)
    }
}

/// The filesystem model: a finite map from paths to nodes, stored as an
/// entry list without repeated paths.
pub struct FileSystem {
    entries: Vec<(String, Node)>,
}

impl View for FileSystem {
    type V = Map<Seq<char>, NodeV>;

    closed spec fn view(&self) -> Map<Seq<char>, NodeV> {
        map_of(self.entries@)
    }
}

/// The image of the tree under `src` relocated below `dst`: the paths
/// below `dst` whose counterpart below `src` exists, each mapped to
/// that counterpart's node.
pub open spec fn tree_image(m: Map<Seq<char>, NodeV>, src: Seq<char>, dst: Seq<char>) -> Map<
    Seq<char>,
    NodeV,
> {
    Map::new(
        |q: Seq<char>| under(dst, q) && m.contains_key(src + q.skip(dst.len() as int)),
        |q: Seq<char>| m[src + q.skip(dst.len() as int)],
    )
}

/// `m` with the tree under `src` copied below `dst`.
pub open spec fn with_tree_copied(
    m: Map<Seq<char>, NodeV>,
    src: Seq<char>,
    dst: Seq<char>,
) -> Map<Seq<char>, NodeV> {
    m.union_prefer_right(tree_image(m, src, dst))
}

/// The destination path of `k` when the tree under `src` is copied
/// below `dst`.
pub open spec fn retarget(src: Seq<char>, dst: Seq<char>, k: Seq<char>) -> Seq<char> {
    dst + k.skip(src.len() as int)
}

proof fn lemma_map_of_absent(es: Seq<(String, Node)>, k: Seq<char>)
    requires
        forall|i: int| 0 <= i < es.len() ==> es[i].0@ != k,
    ensures
        !map_of(es).contains_key(k),
    decreases es.len(),
{
    if es.len() > 0 {
        assert forall|i: int| 0 <= i < es.drop_last().len() implies es.drop_last()[i].0@ != k by {
            assert(es.drop_last()[i] == es[i]);
        }
        lemma_map_of_absent(es.drop_last(), k);
    }
}

proof fn lemma_unique_drop_last(es: Seq<(String, Node)>)
    requires
        unique_keys(es),
        es.len() > 0,
    ensures
        unique_keys(es.drop_last()),
        forall|i: int| 0 <= i < es.len() - 1 ==> es.drop_last()[i].0@ != es.last().0@,
{
    assert forall|i: int, j: int| 0 <= i < j < es.drop_last().len() implies es.drop_last()[i].0@
        != es.drop_last()[j].0@ by {
        assert(es.drop_last()[i] == es[i]);
        assert(es.drop_last()[j] == es[j]);
    }
    assert forall|i: int| 0 <= i < es.len() - 1 implies es.drop_last()[i].0@ != es.last().0@ by {
        assert(es.drop_last()[i] == es[i]);
    }
}

proof fn lemma_map_of_present(es: Seq<(String, Node)>, i: int)
    requires
        unique_keys(es),
        0 <= i < es.len(),
    ensures
        map_of(es).contains_key(es[i].0@),
        map_of(es)[es[i].0@] == es[i].1@,
    decreases es.len(),
{
    if i == es.len() - 1 {
    } else {
        lemma_unique_drop_last(es);
        assert(es.drop_last()[i] == es[i]);
        lemma_map_of_present(es.drop_last(), i);
    }
}

proof fn lemma_map_of_remove(es: Seq<(String, Node)>, i: int)
    requires
        unique_keys(es),
        0 <= i < es.len(),
    ensures
        map_of(es.remove(i)) == map_of(es).remove(es[i].0@),
    decreases es.len(),
{
    let k = es[i].0@;
    lemma_unique_drop_last(es);
    if i == es.len() - 1 {
        assert(es.remove(i) =~= es.drop_last());
        lemma_map_of_absent(es.drop_last(), k);
        assert(map_of(es).remove(k) =~= map_of(es.drop_last()));
    } else {
        let last = es.last();
        assert(es.remove(i).last() == last);
        assert(es.remove(i).drop_last() =~= es.drop_last().remove(i));
        assert(es.drop_last()[i] == es[i]);
        lemma_map_of_remove(es.drop_last(), i);
        assert(map_of(es.drop_last()).remove(k).insert(last.0@, last.1@) =~= map_of(
            es.drop_last(),
        ).insert(last.0@, last.1@).remove(k));
    }
}

impl FileSystem {
    /// No two entries share a path.
    pub closed spec fn wf(&self) -> bool {
        unique_keys(self.entries@)
    }

    /// An empty filesystem.
    pub fn new() -> (fs: FileSystem)
        ensures
            fs.wf(),
            fs@ == Map::<Seq<char>, NodeV>::empty(),
    {
        FileSystem { entries: Vec::new() }
    }

    fn find_index(&self, path: &str) -> (r: Option<usize>)
        ensures
            match r {
                Option::Some(i) => i < self.entries@.len() && self.entries@[i as int].0@ == path@,
                Option::None => forall|j: int|
                    0 <= j < self.entries@.len() ==> self.entries@[j].0@ != path@,
            },
    {
        let mut j: usize = 0;
        while j < self.entries.len()
            invariant
                j <= self.entries@.len(),
                forall|i: int| 0 <= i < j ==> self.entries@[i].0@ != path@,
            decreases self.entries@.len() - j,
        {
            if str_eq(self.entries[j].0.as_str(), path) {
                return Option::Some(j);
            }
            j += 1;
        }
        Option::None
    }

    /// The node stored at `path`, if any.
    pub fn lookup(&self, path: &str) -> (r: Option<&Node>)
        requires
            self.wf(),
        ensures
            match r {
                Option::Some(n) => self@.contains_key(path@) && n@ == self@[path@],
                Option::None => !self@.contains_key(path@),
            },
    {
        match self.find_index(path) {
            Option::Some(i) => {
                proof {
                    lemma_map_of_present(self.entries@, i as int);
                }
                Option::Some(&self.entries[i].1)
            },
            Option::None => {
                proof {
                    lemma_map_of_absent(self.entries@, path@);
                }
                Option::None
            },
        }
    }

    /// The node stored at `path`, if any, as an owned value.
    pub fn get_node(&self, path: &str) -> (r: Option<Node>)
        requires
            self.wf(),
        ensures
            match r {
                Option::Some(n) => self@.contains_key(path@) && n@ == self@[path@],
                Option::None => !self@.contains_key(path@),
            },
    {
        match self.lookup(path) {
            Option::Some(n) => Option::Some(n.duplicate()),
            Option::None => Option::None,
        }
    }

    /// Does something exist at `path`? The root always does.
    pub fn occupied(&self, path: &str) -> (r: bool)
        requires
            self.wf(),
        ensures
            r == exists_at(self@, path@),
    {
        proof {
            reveal_strlit("/");
            assert("/"@ =~= seq!['/']);
        }
        if str_eq(path, "/") {
            return true;
        }
        match self.lookup(path) {
            Option::Some(n) => true,
            Option::None => false,
        }
    }

    /// Is there a directory entry at `path`?
    pub fn is_dir(&self, path: &str) -> (r: bool)
        requires
            self.wf(),
        ensures
            r == dir_at(self@, path@),
    {
        match self.lookup(path) {
            Option::Some(n) => matches!(n, Node::Dir),
            Option::None => false,
        }
    }

    /// Can an entry be created at `path`: is its parent a directory?
    pub fn parent_is_dir(&self, path: &str) -> (r: bool)
        requires
            self.wf(),
        ensures
            r == parent_ok(self@, path@),
    {
        proof {
            reveal_strlit("/");
            assert("/"@ =~= seq!['/']);
        }
        match parent_of(path) {
            Option::None => true,
            Option::Some(q) => q.as_str().unicode_len() == 0 || str_eq(q.as_str(), "/")
                || self.is_dir(q.as_str()),
        }
    }

    /// Store `node` at `path`, replacing whatever was there.
    pub fn set_node(&mut self, path: &str, node: Node)
        requires
            old(self).wf(),
        ensures
            final(self).wf(),
            final(self)@ == old(self)@.insert(path@, node@),
    {
        let key = String::from_str(path);
        match self.find_index(path) {
            Option::Some(i) => {
                let ghost es0 = self.entries@;
                proof {
                    lemma_map_of_remove(es0, i as int);
                }
                self.entries.remove(i);
                let ghost es1 = self.entries@;
                proof {
                    assert forall|a: int, b: int| 0 <= a < b < es1.len() implies es1[a].0@
                        != es1[b].0@ by {
                        assert(es1[a] == es0.remove(i as int)[a]);
                        assert(es1[b] == es0.remove(i as int)[b]);
                        if a < i {
                            assert(es0.remove(i as int)[a] == es0[a]);
                        } else {
                            assert(es0.remove(i as int)[a] == es0[a + 1]);
                        }
                        if b < i {
                            assert(es0.remove(i as int)[b] == es0[b]);
                        } else {
                            assert(es0.remove(i as int)[b] == es0[b + 1]);
                        }
                    }
                    assert forall|a: int| 0 <= a < es1.len() implies es1[a].0@ != path@ by {
                        if a < i {
                            assert(es1[a] == es0[a]);
                        } else {
                            assert(es1[a] == es0[a + 1]);
                        }
                    }
                }
                self.entries.push((key, node));
                proof {
                    assert(self.entries@.drop_last() =~= es1);
                    lemma_map_of_absent(es1, path@);
                    assert(map_of(es0).remove(path@).insert(path@, node@) =~= map_of(es0).insert(
                        path@,
                        node@,
                    ));
                }
            },
            Option::None => {
                let ghost es0 = self.entries@;
                self.entries.push((key, node));
                proof {
                    assert(self.entries@.drop_last() =~= es0);
                }
            },
        }
    }

    /// Drop the single entry at `path`, if present; entries below it
    /// are untouched.
    pub fn remove_entry(&mut self, path: &str)
        requires
            old(self).wf(),
        ensures
            final(self).wf(),
            final(self)@ == old(self)@.remove(path@),
    {
        match self.find_index(path) {
            Option::Some(i) => {
                let ghost es0 = self.entries@;
                proof {
                    lemma_map_of_remove(es0, i as int);
                }
                self.entries.remove(i);
                let ghost es1 = self.entries@;
                proof {
                    assert forall|a: int, b: int| 0 <= a < b < es1.len() implies es1[a].0@
                        != es1[b].0@ by {
                        if a < i {
                            assert(es0.remove(i as int)[a] == es0[a]);
                        } else {
                            assert(es0.remove(i as int)[a] == es0[a + 1]);
                        }
                        if b < i {
                            assert(es0.remove(i as int)[b] == es0[b]);
                        } else {
                            assert(es0.remove(i as int)[b] == es0[b + 1]);
                        }
                    }
                }
            },
            Option::None => {
                proof {
                    lemma_map_of_absent(self.entries@, path@);
                    assert(map_of(self.entries@).remove(path@) =~= map_of(self.entries@));
                }
            },
        }
    }

    /// Drop the whole tree rooted at `path`: the entry itself and every
    /// entry below it.
    pub fn remove_tree(&mut self, path: &str)
        requires
            old(self).wf(),
        ensures
            final(self).wf(),
            final(self)@ == old(self)@.remove_keys(under_set(path@)),
    {
        let ghost m0 = map_of(self.entries@);
        let ghost u = under_set(path@);
        let mut kept: Vec<(String, Node)> = Vec::new();
        proof {
            assert(m0.remove_keys(u) =~= map_of(self.entries@).remove_keys(u).union_prefer_right(
                map_of(kept@),
            ));
        }
        while self.entries.len() > 0
            invariant
                unique_keys(self.entries@),
                unique_keys(kept@),
                forall|i: int, j: int|
                    0 <= i < self.entries@.len() && 0 <= j < kept@.len() ==> self.entries@[i].0@
                        != kept@[j].0@,
                forall|j: int| 0 <= j < kept@.len() ==> !under(path@, kept@[j].0@),
                m0.remove_keys(u) == map_of(self.entries@).remove_keys(u).union_prefer_right(
                    map_of(kept@),
                ),
                u == under_set(path@),
            decreases self.entries@.len(),
        {
            let ghost es0 = self.entries@;
            let ghost kept0 = kept@;
            let e = self.entries.pop().unwrap();
            let ghost k = e.0@;
            let ghost v = e.1@;
            proof {
                assert(self.entries@ =~= es0.drop_last());
                lemma_unique_drop_last(es0);
                lemma_map_of_absent(es0.drop_last(), k);
                lemma_map_of_absent(kept0, k);
            }
            if !is_under(path, e.0.as_str()) {
                kept.push(e);
                proof {
                    assert(kept@.drop_last() =~= kept0);
                    assert(map_of(es0).remove_keys(u) =~= map_of(es0.drop_last()).remove_keys(
                        u,
                    ).insert(k, v));
                    assert(map_of(es0.drop_last()).remove_keys(u).insert(k, v).union_prefer_right(
                        map_of(kept0),
                    ) =~= map_of(es0.drop_last()).remove_keys(u).union_prefer_right(
                        map_of(kept0).insert(k, v),
                    ));
                    assert forall|i: int, j: int|
                        0 <= i < self.entries@.len() && 0 <= j < kept@.len() implies self
                        .entries@[i].0@ != kept@[j].0@ by {
                        assert(self.entries@[i] == es0[i]);
                        if j < kept0.len() {
                            assert(kept@[j] == kept0[j]);
                        } else {
                            assert(kept@[j].0@ == k);
                        }
                    }
                }
            } else {
                proof {
                    assert(map_of(es0).remove_keys(u) =~= map_of(es0.drop_last()).remove_keys(u));
                }
            }
        }
        proof {
            assert(self.entries@.len() == 0);
            assert(map_of(self.entries@) == Map::<Seq<char>, NodeV>::empty());
            assert(m0.remove_keys(u) =~= map_of(kept@));
        }
        self.entries = kept;
    }

    /// Copy the whole tree rooted at `src` to `dst`: every entry at
    /// `src` or below reappears at the corresponding path below `dst`,
    /// taking precedence over what was there.
    pub fn copy_tree(&mut self, src: &str, dst: &str)
        requires
            old(self).wf(),
        ensures
            final(self).wf(),
            final(self)@ == with_tree_copied(old(self)@, src@, dst@),
    {
        let ghost m0 = map_of(self.entries@);
        let src_len = src.unicode_len();
        let mut to_add: Vec<(String, Node)> = Vec::new();
        let mut i: usize = 0;
        proof {
            assert(self.entries@.take(0) =~= Seq::<(String, Node)>::empty());
            assert(map_of(to_add@) =~= tree_image(map_of(self.entries@.take(0)), src@, dst@));
        }
        while i < self.entries.len()
            invariant
                self.wf(),
                i <= self.entries@.len(),
                src_len == src@.len(),
                map_of(to_add@) == tree_image(map_of(self.entries@.take(i as int)), src@, dst@),
            decreases self.entries@.len() - i,
        {
            let ghost mi = map_of(self.entries@.take(i as int));
            let ghost kq = self.entries@[i as int].0@;
            let ghost vq = self.entries@[i as int].1@;
            proof {
                assert(self.entries@.take(i + 1).drop_last() =~= self.entries@.take(i as int));
                assert(self.entries@.take(i + 1).last() == self.entries@[i as int]);
                lemma_tree_image_insert(mi, src@, dst@, kq, vq);
            }
            let key = &self.entries[i].0;
            if is_under(src, key.as_str()) {
                let key_len = key.unicode_len();
                let mut rt = String::from_str(dst);
                rt.append(key.substring_char(src_len, key_len));
                let node = self.entries[i].1.duplicate();
                let ghost added0 = to_add@;
                to_add.push((rt, node));
                proof {
                    assert(rt@ =~= retarget(src@, dst@, kq));
                    assert(to_add@.drop_last() =~= added0);
                }
            }
            i += 1;
        }
        proof {
            assert(self.entries@.take(i as int) =~= self.entries@);
        }
        let ghost added = to_add@;
        let mut j: usize = 0;
        proof {
            assert(added.take(0) =~= Seq::<(String, Node)>::empty());
            assert(map_of(self.entries@) =~= m0.union_prefer_right(map_of(added.take(0))));
        }
        while j < to_add.len()
            invariant
                self.wf(),
                j <= added.len(),
                to_add@ == added,
                self@ == m0.union_prefer_right(map_of(added.take(j as int))),
            decreases added.len() - j,
        {
            let ghost mj = map_of(added.take(j as int));
            proof {
                assert(added.take(j + 1).drop_last() =~= added.take(j as int));
                assert(added.take(j + 1).last() == added[j as int]);
            }
            let node = to_add[j].1.duplicate();
            self.set_node(to_add[j].0.as_str(), node);
            proof {
                assert(m0.union_prefer_right(mj.insert(added[j as int].0@, added[j as int].1@))
                    =~= m0.union_prefer_right(mj).insert(added[j as int].0@, added[j as int].1@));
            }
            j += 1;
        }
        proof {
            assert(added.take(added.len() as int) =~= added);
            assert(m0.union_prefer_right(map_of(added)) == with_tree_copied(m0, src@, dst@));
        }
    }
}

proof fn lemma_tree_image_insert(m: Map<Seq<char>, NodeV>, src: Seq<char>, dst: Seq<char>, k: Seq<
    char,
>, v: NodeV)
    ensures
        under(src, k) ==> tree_image(m.insert(k, v), src, dst) == tree_image(m, src, dst).insert(
            retarget(src, dst, k),
            v,
        ),
        !under(src, k) ==> tree_image(m.insert(k, v), src, dst) == tree_image(m, src, dst),
{
    if under(src, k) {
        let q0 = retarget(src, dst, k);
        let lhs = tree_image(m.insert(k, v), src, dst);
        let rhs = tree_image(m, src, dst).insert(q0, v);
        assert(q0.skip(dst.len() as int) =~= k.skip(src.len() as int));
        assert(src + k.skip(src.len() as int) =~= k);
        if k == src {
            assert(q0 =~= dst);
        } else {
            assert(q0.len() > dst.len());
            assert(q0.subrange(0, dst.len() as int) =~= dst);
            assert(q0[dst.len() as int] == k[src.len() as int]);
        }
        assert(under(dst, q0));
        assert forall|q: Seq<char>| under(dst, q) && q != q0 implies src + q.skip(
            dst.len() as int,
        ) != k by {
            if src + q.skip(dst.len() as int) == k {
                assert(q.skip(dst.len() as int) =~= (src + q.skip(dst.len() as int)).skip(
                    src.len() as int,
                ));
                if q == dst {
                    assert(q =~= dst + q.skip(dst.len() as int));
                } else {
                    assert(q =~= q.subrange(0, dst.len() as int) + q.skip(dst.len() as int));
                    assert(q =~= dst + q.skip(dst.len() as int));
                }
                assert(q =~= q0);
            }
        }
        assert forall|q: Seq<char>| #[trigger] lhs.dom().contains(q)
            <==> #[trigger] rhs.dom().contains(q) by {}
        assert forall|q: Seq<char>| lhs.dom().contains(q) implies lhs[q] == rhs[q] by {}
        assert(lhs =~= rhs);
    } else {
        let lhs = tree_image(m.insert(k, v), src, dst);
        let rhs = tree_image(m, src, dst);
        assert forall|q: Seq<char>| under(dst, q) implies src + q.skip(dst.len() as int) != k by {
            let suffix = q.skip(dst.len() as int);
            if src + suffix == k {
                if q == dst {
                    assert(suffix.len() == 0);
                    assert(src + suffix =~= src);
                    assert(under(src, k));
                } else {
                    assert(suffix[0] == q[dst.len() as int]);
                    assert((src + suffix).subrange(0, src.len() as int) =~= src);
                    assert((src + suffix)[src.len() as int] == '/');
                    assert(under(src, k));
                }
            }
        }
        assert(lhs =~= rhs);
    }
}

} // verus!
