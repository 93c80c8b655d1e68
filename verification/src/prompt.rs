//! Classification of one line of operator input at a confirmation
//! prompt: trimmed, case-insensitive `yes`/`y` and `no`/`n`; anything
//! else asks again. Whitespace and case folding are the ASCII ones.

use vstd::prelude::*;
use vstd::string::StrSliceExecFns;

verus! {

/// What one line of input at a confirmation prompt means.
#[derive(Debug, PartialEq, Eq)]
pub enum Answer {
    Yes,
    No,
    /// Neither form of yes nor of no: the prompt is repeated.
    Unrecognized,
}

/// ASCII whitespace.
pub open spec fn is_space(c: char) -> bool {
    c == ' ' || c == '\t' || c == '\n' || c == '\r' || c == '\u{b}' || c == '\u{c}'
}

/// `s` without leading whitespace.
pub open spec fn trim_front(s: Seq<char>) -> Seq<char>
    decreases s.len(),
{
    if s.len() > 0 && is_space(s[0]) {
        trim_front(s.drop_first())
    } else {
        s
    }
}

/// `s` without trailing whitespace.
pub open spec fn trim_back(s: Seq<char>) -> Seq<char>
    decreases s.len(),
{
    if s.len() > 0 && is_space(s.last()) {
        trim_back(s.drop_last())
    } else {
        s
    }
}

/// `s` without leading and trailing whitespace.
pub open spec fn trimmed(s: Seq<char>) -> Seq<char> {
    trim_back(trim_front(s))
}

/// A form of yes: `y` or `yes` in any case.
pub open spec fn is_yes_word(t: Seq<char>) -> bool {
    ||| (t.len() == 1 && (t[0] == 'y' || t[0] == 'Y'))
    ||| (t.len() == 3 && (t[0] == 'y' || t[0] == 'Y') && (t[1] == 'e' || t[1] == 'E') && (t[2]
        == 's' || t[2] == 'S'))
}

/// A form of no: `n` or `no` in any case.
pub open spec fn is_no_word(t: Seq<char>) -> bool {
    ||| (t.len() == 1 && (t[0] == 'n' || t[0] == 'N'))
    ||| (t.len() == 2 && (t[0] == 'n' || t[0] == 'N') && (t[1] == 'o' || t[1] == 'O'))
}

/// The meaning of one line: its trimmed text read case-insensitively.
pub open spec fn spec_classify(s: Seq<char>) -> Answer {
    let t = trimmed(s);
    if is_yes_word(t) {
        Answer::Yes
    } else if is_no_word(t) {
        Answer::No
    } else {
        Answer::Unrecognized
    }
}

proof fn lemma_trim_front_is(s: Seq<char>, k: int)
    requires
        0 <= k <= s.len(),
        forall|j: int| 0 <= j < k ==> is_space(s[j]),
        k < s.len() ==> !is_space(s[k]),
    ensures
        trim_front(s) == s.skip(k),
    decreases s.len(),
{
    if k == 0 {
        assert(s.skip(0) =~= s);
    } else {
        assert(is_space(s[0]));
        assert forall|j: int| 0 <= j < k - 1 implies is_space(s.drop_first()[j]) by {
            assert(s.drop_first()[j] == s[j + 1]);
        }
        if k - 1 < s.drop_first().len() {
            assert(s.drop_first()[k - 1] == s[k]);
        }
        lemma_trim_front_is(s.drop_first(), k - 1);
        assert(s.drop_first().skip(k - 1) =~= s.skip(k));
    }
}

proof fn lemma_trim_back_is(s: Seq<char>, h: int)
    requires
        0 <= h <= s.len(),
        forall|j: int| h <= j < s.len() ==> is_space(s[j]),
        h > 0 ==> !is_space(s[h - 1]),
    ensures
        trim_back(s) == s.take(h),
    decreases s.len(),
{
    if h == s.len() {
        if s.len() > 0 {
            assert(!is_space(s.last()));
        }
        assert(s.take(h) =~= s);
    } else {
        assert(is_space(s.last()));
        assert forall|j: int| h <= j < s.drop_last().len() implies is_space(s.drop_last()[j]) by {
            assert(s.drop_last()[j] == s[j]);
        }
        if h > 0 {
            assert(s.drop_last()[h - 1] == s[h - 1]);
        }
        lemma_trim_back_is(s.drop_last(), h);
        assert(s.drop_last().take(h) =~= s.take(h));
    }
}

/// Is `c` ASCII whitespace?
fn is_space_char(c: char) -> (r: bool)
    ensures
        r == is_space(c),
{
    c == ' ' || c == '\t' || c == '\n' || c == '\r' || c == '\u{b}' || c == '\u{c}'
}

/// Classify one line of operator input: the trimmed text, read
/// case-insensitively, as yes, no, or neither.
pub fn classify_answer(line: &str) -> (a: Answer)
    ensures
        a == spec_classify(line@),
{
    let len = line.unicode_len();
    let mut lo: usize = 0;
    while lo < len && is_space_char(line.get_char(lo))
        invariant
            lo <= len,
            len == line@.len(),
            forall|j: int| 0 <= j < lo ==> is_space(line@[j]),
        decreases len - lo,
    {
        lo += 1;
    }
    let mut hi: usize = len;
    while hi > lo && is_space_char(line.get_char(hi - 1))
        invariant
            lo <= hi <= len,
            len == line@.len(),
            forall|j: int| 0 <= j < lo ==> is_space(line@[j]),
            forall|j: int| hi <= j < len ==> is_space(line@[j]),
        decreases hi,
    {
        hi -= 1;
    }
    let ghost t1 = line@.skip(lo as int);
    let ghost t = trimmed(line@);
    proof {
        lemma_trim_front_is(line@, lo as int);
        assert forall|j: int| hi - lo <= j < t1.len() implies is_space(t1[j]) by {
            assert(t1[j] == line@[j + lo]);
        }
        if hi > lo {
            assert(t1[hi - lo - 1] == line@[hi - 1]);
        }
        lemma_trim_back_is(t1, hi - lo);
        assert(t == t1.take(hi - lo));
        assert(t.len() == hi - lo);
        assert forall|j: int| 0 <= j < t.len() implies t[j] == line@[lo + j] by {
            assert(t[j] == t1[j]);
        }
    }
    let n = hi - lo;
    if n == 1 {
        let c = line.get_char(lo);
        if c == 'y' || c == 'Y' {
            return Answer::Yes;
        }
        if c == 'n' || c == 'N' {
            return Answer::No;
        }
        return Answer::Unrecognized;
    }
    if n == 2 {
        let c0 = line.get_char(lo);
        let c1 = line.get_char(lo + 1);
        if (c0 == 'n' || c0 == 'N') && (c1 == 'o' || c1 == 'O') {
            return Answer::No;
        }
        return Answer::Unrecognized;
    }
    if n == 3 {
        let c0 = line.get_char(lo);
        let c1 = line.get_char(lo + 1);
        let c2 = line.get_char(lo + 2);
        if (c0 == 'y' || c0 == 'Y') && (c1 == 'e' || c1 == 'E') && (c2 == 's' || c2 == 'S') {
            return Answer::Yes;
        }
        return Answer::Unrecognized;
    }
    Answer::Unrecognized
}

} // verus!
