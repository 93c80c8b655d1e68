//! Path algebra over plain strings: every path is taken verbatim, with
//! `/` as the component separator. The root `/` and the empty path
//! (the current directory) always count as existing directories.

use vstd::prelude::*;
use vstd::string::StrSliceExecFns;
use vstd::string::StringExecFns;

use crate::text::matches_at;
use crate::text::str_eq;

verus! {

/// Index of the last `/` in `p`, or `-1` if there is none.
pub open spec fn last_slash(p: Seq<char>) -> int
    decreases p.len(),
{
    if p.len() == 0 {
        -1
    } else if p.last() == '/' {
        p.len() - 1
    } else {
        last_slash(p.drop_last())
    }
}

pub proof fn lemma_last_slash(p: Seq<char>)
    ensures
        -1 <= last_slash(p) < p.len(),
        last_slash(p) >= 0 ==> p[last_slash(p)] == '/',
        forall|j: int| last_slash(p) < j < p.len() ==> p[j] != '/',
    decreases p.len(),
{
    if p.len() == 0 {
    } else if p.last() == '/' {
    } else {
        lemma_last_slash(p.drop_last());
        assert forall|j: int| last_slash(p) < j < p.len() implies p[j] != '/' by {
            if j < p.len() - 1 {
                assert(p.drop_last()[j] == p[j]);
            }
        }
        if last_slash(p) >= 0 {
            assert(p.drop_last()[last_slash(p)] == p[last_slash(p)]);
        }
    }
}

/// `last_slash` is pinned down by its characteristic properties.
pub proof fn lemma_last_slash_is(p: Seq<char>, k: int)
    requires
        -1 <= k < p.len(),
        k >= 0 ==> p[k] == '/',
        forall|j: int| k < j < p.len() ==> p[j] != '/',
    ensures
        last_slash(p) == k,
{
    lemma_last_slash(p);
    if last_slash(p) < k {
        assert(p[k] == '/');
    }
    if k < last_slash(p) {
        assert(p[last_slash(p)] != '/');
    }
}

/// The parent of `p` in the way the standard path type reads it: the
/// text before the last `/`, the root for a path like `/x`, and the
/// empty path (the current directory) for a bare file name. The root
/// itself and the empty path have no parent.
pub open spec fn parent_path(p: Seq<char>) -> Option<Seq<char>> {
    if p == seq!['/'] || p.len() == 0 {
        Option::None
    } else {
        let i = last_slash(p);
        if i < 0 {
            Option::Some(Seq::empty())
        } else if i == 0 {
            Option::Some(seq!['/'])
        } else {
            Option::Some(p.subrange(0, i))
        }
    }
}

/// Does the path `k` lie in the tree rooted at `root`: is it `root`
/// itself or a path below it?
pub open spec fn under(root: Seq<char>, k: Seq<char>) -> bool {
    k == root || (k.len() > root.len() && k.subrange(0, root.len() as int) == root && k[root.len()
        as int] == '/')
}

/// All paths in the tree rooted at `root`.
pub open spec fn under_set(root: Seq<char>) -> Set<Seq<char>> {
    Set::new(|k: Seq<char>| under(root, k))
}

/// The index of the last `/` in `p`, if any.
pub fn find_last_slash(p: &str) -> (r: Option<usize>)
    ensures
        match r {
            Option::Some(i) => i == last_slash(p@),
            Option::None => last_slash(p@) == -1,
        },
{
    let len = p.unicode_len();
    let mut i: usize = len;
    while i > 0
        invariant
            i <= len,
            len == p@.len(),
            forall|j: int| i <= j < len ==> p@[j] != '/',
        decreases i,
    {
        i -= 1;
        if p.get_char(i) == '/' {
            proof {
                lemma_last_slash_is(p@, i as int);
            }
            return Option::Some(i);
        }
    }
    proof {
        lemma_last_slash_is(p@, -1);
    }
    Option::None
}

/// The parent of `p`, as [`parent_path`] reads it.
pub fn parent_of(p: &str) -> (r: Option<String>)
    ensures
        match r {
            Option::Some(q) => parent_path(p@) == Option::Some(q@),
            Option::None => parent_path(p@) is None,
        },
{
    proof {
        reveal_strlit("/");
        assert("/"@ =~= seq!['/']);
    }
    if str_eq(p, "/") || p.unicode_len() == 0 {
        return Option::None;
    }
    match find_last_slash(p) {
        Option::None => Option::Some(String::new()),
        Option::Some(i) => {
            if i == 0 {
                Option::Some(String::from_str("/"))
            } else {
                proof {
                    lemma_last_slash(p@);
                }
                let q = p.substring_char(0, i);
                Option::Some(String::from_str(q))
            }
        },
    }
}

/// Is `k` the path `root` or a path below it?
pub fn is_under(root: &str, k: &str) -> (r: bool)
    ensures
        r == under(root@, k@),
{
    if str_eq(root, k) {
        return true;
    }
    let root_len = root.unicode_len();
    let k_len = k.unicode_len();
    if k_len > root_len && matches_at(k, 0, root) {
        if k.get_char(root_len) == '/' {
            return true;
        }
    }
    false
}

} // verus!
