//! Verified character-level string utilities: searching, pattern
//! replacement, and splitting/joining on `/`, the building blocks of
//! path templating.

use vstd::prelude::*;
use vstd::string::StrSliceExecFns;
use vstd::string::StringExecFns;

verus! {

/// Index of the first occurrence of `c` in `s`, or `s.len()` if absent.
pub open spec fn find_char(s: Seq<char>, c: char) -> int
    decreases s.len(),
{
    if s.len() == 0 {
        0
    } else if s[0] == c {
        0
    } else {
        1 + find_char(s.drop_first(), c)
    }
}

pub proof fn lemma_find_char(s: Seq<char>, c: char)
    ensures
        0 <= find_char(s, c) <= s.len(),
        forall|j: int| 0 <= j < find_char(s, c) ==> s[j] != c,
        find_char(s, c) < s.len() ==> s[find_char(s, c)] == c,
    decreases s.len(),
{
    if s.len() == 0 {
    } else if s[0] == c {
    } else {
        lemma_find_char(s.drop_first(), c);
        assert forall|j: int| 0 <= j < find_char(s, c) implies s[j] != c by {
            if j > 0 {
                assert(s.drop_first()[j - 1] == s[j]);
            }
        }
        if find_char(s, c) < s.len() {
            assert(s.drop_first()[find_char(s, c) - 1] == s[find_char(s, c)]);
        }
    }
}

/// `find_char` is pinned down by its characteristic properties.
pub proof fn lemma_find_char_is(s: Seq<char>, c: char, k: int)
    requires
        0 <= k <= s.len(),
        forall|j: int| 0 <= j < k ==> s[j] != c,
        k < s.len() ==> s[k] == c,
    ensures
        find_char(s, c) == k,
{
    lemma_find_char(s, c);
    if find_char(s, c) < k {
        assert(s[find_char(s, c)] == c);
    }
    if k < find_char(s, c) {
        assert(s[k] != c);
    }
}

/// Every occurrence of `pat` in `s` replaced by `rep`, scanning left to
/// right without re-examining replaced text, as `str::replace` does.
/// With an empty pattern the text is returned unchanged; callers pass
/// non-empty patterns.
pub open spec fn replaced(s: Seq<char>, pat: Seq<char>, rep: Seq<char>) -> Seq<char>
    decreases s.len(),
{
    if pat.len() == 0 {
        s
    } else if s.len() < pat.len() {
        s
    } else if s.subrange(0, pat.len() as int) == pat {
        rep + replaced(s.skip(pat.len() as int), pat, rep)
    } else {
        seq![s[0]] + replaced(s.skip(1), pat, rep)
    }
}

/// Does `pat` occur in `s` starting at character index `i`?
pub fn matches_at(s: &str, i: usize, pat: &str) -> (r: bool)
    requires
        i <= s@.len(),
    ensures
        r <==> (i + pat@.len() <= s@.len() && s@.subrange(i as int, i + pat@.len()) == pat@),
{
    let s_len = s.unicode_len();
    let pat_len = pat.unicode_len();
    if pat_len > s_len - i {
        return false;
    }
    let mut j: usize = 0;
    while j < pat_len
        invariant
            i + pat_len <= s_len,
            s_len == s@.len(),
            pat_len == pat@.len(),
            j <= pat_len,
            forall|k: int| 0 <= k < j ==> s@[i + k] == pat@[k],
        decreases pat_len - j,
    {
        if s.get_char(i + j) != pat.get_char(j) {
            proof {
                assert(s@.subrange(i as int, i + pat@.len())[j as int] == s@[i + j]);
            }
            return false;
        }
        j += 1;
    }
    proof {
        assert(s@.subrange(i as int, i + pat@.len()) =~= pat@);
    }
    true
}

/// Replace every occurrence of `pat` in `s` by `rep`.
pub fn replace_all(s: &str, pat: &str, rep: &str) -> (r: String)
    requires
        pat@.len() > 0,
    ensures
        r@ == replaced(s@, pat@, rep@),
{
    let mut r = String::new();
    let s_len = s.unicode_len();
    let pat_len = pat.unicode_len();
    let mut i: usize = 0;
    proof {
        assert(s@.skip(0) =~= s@);
        assert(r@ + s@ =~= s@);
    }
    while i < s_len
        invariant
            i <= s_len,
            s_len == s@.len(),
            pat_len == pat@.len(),
            pat@.len() > 0,
            replaced(s@, pat@, rep@) == r@ + replaced(s@.skip(i as int), pat@, rep@),
        decreases s_len - i,
    {
        let ghost tail = s@.skip(i as int);
        let ghost r0 = r@;
        if matches_at(s, i, pat) {
            r.append(rep);
            proof {
                assert(tail.subrange(0, pat@.len() as int) =~= s@.subrange(
                    i as int,
                    i + pat@.len(),
                ));
                assert(tail.skip(pat@.len() as int) =~= s@.skip(i + pat@.len()));
                assert(replaced(tail, pat@, rep@) == rep@ + replaced(
                    s@.skip(i + pat@.len()),
                    pat@,
                    rep@,
                ));
                assert(r0 + (rep@ + replaced(s@.skip(i + pat@.len()), pat@, rep@)) =~= (r0 + rep@)
                    + replaced(s@.skip(i + pat@.len()), pat@, rep@));
            }
            i += pat_len;
        } else {
            let piece = s.substring_char(i, i + 1);
            r.append(piece);
            proof {
                assert(seq![tail[0]] =~= piece@);
                assert(tail.skip(1) =~= s@.skip(i + 1));
                if i + pat@.len() <= s@.len() {
                    assert(tail.subrange(0, pat@.len() as int) =~= s@.subrange(
                        i as int,
                        i + pat@.len(),
                    ));
                    assert(tail.subrange(0, pat@.len() as int) != pat@);
                    assert(replaced(tail, pat@, rep@) == piece@ + replaced(
                        s@.skip(i + 1),
                        pat@,
                        rep@,
                    ));
                } else {
                    assert(tail.len() < pat@.len());
                    assert(replaced(tail, pat@, rep@) == tail);
                    assert(s@.skip(i + 1).len() < pat@.len());
                    assert(replaced(s@.skip(i + 1), pat@, rep@) == s@.skip(i + 1));
                    assert(tail =~= piece@ + s@.skip(i + 1));
                }
                assert(r0 + (piece@ + replaced(s@.skip(i + 1), pat@, rep@)) =~= (r0 + piece@)
                    + replaced(s@.skip(i + 1), pat@, rep@));
            }
            i += 1;
        }
    }
    proof {
        assert(s@.skip(i as int).len() == 0);
        assert(replaced(s@.skip(i as int), pat@, rep@) == s@.skip(i as int));
        assert(r@ + s@.skip(i as int) =~= r@);
    }
    r
}

/// Are two strings equal, character for character?
pub fn str_eq(a: &str, b: &str) -> (r: bool)
    ensures
        r <==> a@ == b@,
{
    let a_len = a.unicode_len();
    let b_len = b.unicode_len();
    if a_len != b_len {
        return false;
    }
    let mut j: usize = 0;
    while j < a_len
        invariant
            a_len == a@.len(),
            a_len == b@.len(),
            j <= a_len,
            forall|k: int| 0 <= k < j ==> a@[k] == b@[k],
        decreases a_len - j,
    {
        if a.get_char(j) != b.get_char(j) {
            return false;
        }
        j += 1;
    }
    proof {
        assert(a@ =~= b@);
    }
    true
}

/// The components of `s` split on `/`; a separator at either end or two
/// in a row yield empty components, so joining the parts with `/`
/// restores `s` exactly.
pub open spec fn split_slash(s: Seq<char>) -> Seq<Seq<char>>
    decreases s.len(),
{
    let i = find_char(s, '/');
    if 0 <= i < s.len() {
        seq![s.subrange(0, i)] + split_slash(s.skip(i + 1))
    } else {
        seq![s]
    }
}

/// The parts joined back with `/` between consecutive parts.
pub open spec fn join_slash(parts: Seq<Seq<char>>) -> Seq<char>
    decreases parts.len(),
{
    if parts.len() == 0 {
        Seq::empty()
    } else if parts.len() == 1 {
        parts[0]
    } else {
        parts[0] + seq!['/'] + join_slash(parts.drop_first())
    }
}

/// Split a string on `/`.
pub fn split_on_slash(s: &str) -> (parts: Vec<String>)
    ensures
        parts.deep_view() == split_slash(s@),
        parts.len() >= 1,
{
    let len = s.unicode_len();
    let mut parts: Vec<String> = Vec::new();
    let mut start: usize = 0;
    let mut i: usize = 0;
    proof {
        assert(s@.skip(0) =~= s@);
        assert(parts.deep_view() + split_slash(s@) =~= split_slash(s@));
    }
    while i < len
        invariant
            len == s@.len(),
            start <= i <= len,
            parts.len() == parts.deep_view().len(),
            forall|j: int| start <= j < i ==> s@[j] != '/',
            split_slash(s@) == parts.deep_view() + split_slash(s@.skip(start as int)),
        decreases len - i,
    {
        if s.get_char(i) == '/' {
            let ghost tail = s@.skip(start as int);
            let ghost parts0 = parts.deep_view();
            let piece = s.substring_char(start, i);
            parts.push(String::from_str(piece));
            proof {
                assert forall|j: int| 0 <= j < i - start implies tail[j] != '/' by {
                    assert(tail[j] == s@[start + j]);
                }
                assert(tail[i - start] == s@[i as int]);
                lemma_find_char_is(tail, '/', i - start);
                assert(tail.subrange(0, i - start) =~= piece@);
                assert(tail.skip(i - start + 1) =~= s@.skip(i + 1));
                assert(split_slash(tail) == seq![piece@] + split_slash(s@.skip(i + 1)));
                assert(parts.deep_view() =~= parts0 + seq![piece@]);
                assert(parts0 + (seq![piece@] + split_slash(s@.skip(i + 1))) =~= (parts0
                    + seq![piece@]) + split_slash(s@.skip(i + 1)));
            }
            start = i + 1;
        }
        i += 1;
    }
    let ghost tail = s@.skip(start as int);
    let ghost parts0 = parts.deep_view();
    let piece = s.substring_char(start, len);
    parts.push(String::from_str(piece));
    proof {
        assert forall|j: int| 0 <= j < tail.len() implies tail[j] != '/' by {
            assert(tail[j] == s@[start + j]);
        }
        lemma_find_char_is(tail, '/', tail.len() as int);
        assert(tail =~= piece@);
        assert(split_slash(tail) == seq![piece@]);
        assert(parts.deep_view() =~= parts0 + seq![piece@]);
    }
    parts
}

proof fn lemma_split_slash_nonempty(s: Seq<char>)
    ensures
        split_slash(s).len() >= 1,
{
    lemma_find_char(s, '/');
}

/// Splitting loses nothing: joining the parts restores the text
/// exactly, separators at the ends and doubled separators included.
pub proof fn lemma_join_split_round_trip(s: Seq<char>)
    ensures
        join_slash(split_slash(s)) == s,
    decreases s.len(),
{
    lemma_find_char(s, '/');
    let i = find_char(s, '/');
    if 0 <= i < s.len() {
        lemma_join_split_round_trip(s.skip(i + 1));
        lemma_split_slash_nonempty(s.skip(i + 1));
        let parts = split_slash(s);
        assert(parts.drop_first() =~= split_slash(s.skip(i + 1)));
        assert(join_slash(parts) == s.subrange(0, i) + seq!['/'] + join_slash(
            split_slash(s.skip(i + 1)),
        ));
        assert(s.subrange(0, i) + seq!['/'] + s.skip(i + 1) =~= s);
    }
}

/// What remains of a join after its first part: a separator and the join
/// of the rest.
spec fn join_tail(parts: Seq<Seq<char>>) -> Seq<char>
    decreases parts.len(),
{
    if parts.len() == 0 {
        Seq::empty()
    } else {
        seq!['/'] + parts[0] + join_tail(parts.drop_first())
    }
}

proof fn lemma_join_tail(parts: Seq<Seq<char>>)
    requires
        parts.len() > 0,
    ensures
        join_tail(parts) == seq!['/'] + join_slash(parts),
    decreases parts.len(),
{
    if parts.len() == 1 {
        assert(parts.drop_first().len() == 0);
        assert(join_tail(parts.drop_first()) == Seq::<char>::empty());
        assert(join_tail(parts) =~= seq!['/'] + join_slash(parts));
    } else {
        lemma_join_tail(parts.drop_first());
        assert(join_tail(parts) =~= seq!['/'] + join_slash(parts));
    }
}

/// Join the parts with `/` between consecutive parts.
pub fn join_with_slash(parts: &Vec<String>) -> (r: String)
    ensures
        r@ == join_slash(parts.deep_view()),
{
    if parts.len() == 0 {
        let r = String::new();
        return r;
    }
    let mut r = String::from_str(parts[0].as_str());
    let mut i: usize = 1;
    proof {
        let all = parts.deep_view();
        assert(r@ == all[0]);
        if parts.len() == 1 {
            assert(all.skip(1).len() == 0);
            assert(r@ + join_tail(all.skip(1)) =~= r@);
        } else {
            assert(all.skip(1) =~= all.drop_first());
            lemma_join_tail(all.drop_first());
            assert(r@ + (seq!['/'] + join_slash(all.drop_first())) =~= all[0] + seq!['/']
                + join_slash(all.drop_first()));
        }
    }
    while i < parts.len()
        invariant
            1 <= i <= parts.len(),
            parts.len() == parts.deep_view().len(),
            join_slash(parts.deep_view()) == r@ + join_tail(parts.deep_view().skip(i as int)),
        decreases parts.len() - i,
    {
        let ghost all = parts.deep_view();
        let ghost rest = all.skip(i as int);
        let ghost r0 = r@;
        r.append("/");
        r.append(parts[i].as_str());
        proof {
            reveal_strlit("/");
            assert("/"@ =~= seq!['/']);
            assert(rest[0] == all[i as int]);
            assert(rest.drop_first() =~= all.skip(i + 1));
            assert(join_tail(rest) == seq!['/'] + rest[0] + join_tail(all.skip(i + 1)));
            assert(r0 + (seq!['/'] + rest[0] + join_tail(all.skip(i + 1))) =~= ((r0 + "/"@)
                + all[i as int]) + join_tail(all.skip(i + 1)));
        }
        i += 1;
    }
    proof {
        assert(parts.deep_view().skip(i as int).len() == 0);
        assert(r@ + join_tail(parts.deep_view().skip(i as int)) =~= r@);
    }
    r
}

} // verus!
