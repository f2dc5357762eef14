//! Character-sequence helpers shared by the scanner and the renderer:
//! whitespace trimming, prefix tests and stripping, substring search and
//! token extraction, each as a spec function with a verified executable
//! counterpart.

use vstd::prelude::*;
use vstd::string::StrSliceExecFns;
use vstd::string::StringExecFns;

verus! {

/// Whitespace, as the Unicode `White_Space` property defines it.
pub open spec fn is_space(c: char) -> bool {
    ||| c == ' '
    ||| c == '\t'
    ||| c == '\n'
    ||| c == '\r'
    ||| c as u32 == 0x0b
    ||| c as u32 == 0x0c
    ||| c as u32 == 0x85
    ||| c as u32 == 0xa0
    ||| c as u32 == 0x1680
    ||| (0x2000 <= c as u32 && c as u32 <= 0x200a)
    ||| c as u32 == 0x2028
    ||| c as u32 == 0x2029
    ||| c as u32 == 0x202f
    ||| c as u32 == 0x205f
    ||| c as u32 == 0x3000
}

pub fn is_space_x(c: char) -> (b: bool)
    ensures
        b == is_space(c),
{
    let n = c as u32;
    n == 0x20 || n == 0x09 || n == 0x0a || n == 0x0d || n == 0x0b || n == 0x0c || n == 0x85
        || n == 0xa0 || n == 0x1680 || (0x2000 <= n && n <= 0x200a) || n == 0x2028 || n == 0x2029
        || n == 0x202f || n == 0x205f || n == 0x3000
}

/// The sequence with its leading whitespace removed.
pub open spec fn trim_start(s: Seq<char>) -> Seq<char>
    decreases s.len(),
{
    if s.len() > 0 && is_space(s[0]) {
        trim_start(s.drop_first())
    } else {
        s
    }
}

/// The sequence with its trailing whitespace removed.
pub open spec fn trim_end(s: Seq<char>) -> Seq<char>
    decreases s.len(),
{
    if s.len() > 0 && is_space(s.last()) {
        trim_end(s.drop_last())
    } else {
        s
    }
}

/// The sequence with whitespace removed at both ends.
pub open spec fn trim(s: Seq<char>) -> Seq<char> {
    trim_end(trim_start(s))
}

pub proof fn lemma_trim_start_at(s: Seq<char>, i: int)
    requires
        0 <= i <= s.len(),
        forall|j: int| 0 <= j < i ==> is_space(#[trigger] s[j]),
        i == s.len() || !is_space(s[i]),
    ensures
        trim_start(s) == s.skip(i),
    decreases i,
{
    if i == 0 {
        assert(s.skip(0) =~= s);
    } else {
        lemma_trim_start_at(s.drop_first(), i - 1);
        assert(s.drop_first().skip(i - 1) =~= s.skip(i));
    }
}

pub proof fn lemma_trim_end_at(s: Seq<char>, i: int)
    requires
        0 <= i <= s.len(),
        forall|j: int| i <= j < s.len() ==> is_space(#[trigger] s[j]),
        i == 0 || !is_space(s[i - 1]),
    ensures
        trim_end(s) == s.take(i),
    decreases s.len(),
{
    if i == s.len() {
        assert(s.take(i) =~= s);
        if s.len() > 0 && is_space(s.last()) {
            lemma_trim_end_at(s.drop_last(), i - 1);
            assert(s.drop_last().take(i - 1) =~= s.take(i - 1));
        }
    } else {
        lemma_trim_end_at(s.drop_last(), i);
        assert(s.drop_last().take(i) =~= s.take(i));
    }
}

/// Copies the elements of `v` between `from` and `to` into a fresh vector.
pub fn copy_range(v: &Vec<char>, from: usize, to: usize) -> (r: Vec<char>)
    requires
        from <= to <= v@.len(),
    ensures
        r@ == v@.subrange(from as int, to as int),
{
    let mut r: Vec<char> = Vec::new();
    let mut i: usize = from;
    while i < to
        invariant
            from <= i <= to <= v@.len(),
            r@ == v@.subrange(from as int, i as int),
        decreases to - i,
    {
        r.push(v[i]);
        i = i + 1;
        proof {
            assert(v@.subrange(from as int, i - 1).push(v@[i - 1]) =~= v@.subrange(
                from as int,
                i as int,
            ));
        }
    }
    r
}

pub fn trim_start_x(v: &Vec<char>) -> (r: Vec<char>)
    ensures
        r@ == trim_start(v@),
{
    let mut i: usize = 0;
    while i < v.len() && is_space_x(v[i])
        invariant
            0 <= i <= v@.len(),
            forall|j: int| 0 <= j < i ==> is_space(#[trigger] v@[j]),
        decreases v@.len() - i,
    {
        i = i + 1;
    }
    proof {
        lemma_trim_start_at(v@, i as int);
        assert(v@.skip(i as int) =~= v@.subrange(i as int, v@.len() as int));
    }
    copy_range(v, i, v.len())
}

pub fn trim_x(v: &Vec<char>) -> (r: Vec<char>)
    ensures
        r@ == trim(v@),
{
    let t = trim_start_x(v);
    let mut j: usize = t.len();
    while j > 0 && is_space_x(t[j - 1])
        invariant
            0 <= j <= t@.len(),
            forall|k: int| j <= k < t@.len() ==> is_space(#[trigger] t@[k]),
        decreases j,
    {
        j = j - 1;
    }
    proof {
        lemma_trim_end_at(t@, j as int);
        assert(t@.take(j as int) =~= t@.subrange(0, j as int));
    }
    copy_range(&t, 0, j)
}

/// Holds when `p` is a prefix of `s`.
pub open spec fn has_prefix(s: Seq<char>, p: Seq<char>) -> bool {
    p.len() <= s.len() && s.subrange(0, p.len() as int) == p
}

/// Tests whether `p` is a prefix of `v` starting at position `off`.
pub fn has_prefix_at(v: &Vec<char>, off: usize, p: &str) -> (b: bool)
    requires
        off <= v@.len(),
    ensures
        b == has_prefix(v@.skip(off as int), p@),
{
    let plen = p.unicode_len();
    let vlen = v.len();
    if vlen - off < plen {
        return false;
    }
    let mut i: usize = 0;
    while i < plen
        invariant
            0 <= i <= plen == p@.len(),
            off + plen <= vlen == v@.len(),
            forall|j: int| 0 <= j < i ==> v@[off + j] == p@[j],
        decreases plen - i,
    {
        if v[off + i] != p.get_char(i) {
            proof {
                let t = v@.skip(off as int);
                assert(t.subrange(0, plen as int)[i as int] == v@[off + i]);
            }
            return false;
        }
        i = i + 1;
    }
    proof {
        assert(v@.skip(off as int).subrange(0, plen as int) =~= p@);
    }
    true
}

pub fn has_prefix_x(v: &Vec<char>, p: &str) -> (b: bool)
    ensures
        b == has_prefix(v@, p@),
{
    let b = has_prefix_at(v, 0, p);
    proof {
        assert(v@.skip(0) =~= v@);
    }
    b
}

/// The sequence with every leading occurrence of `c` removed.
pub open spec fn strip_leading(s: Seq<char>, c: char) -> Seq<char>
    decreases s.len(),
{
    if s.len() > 0 && s[0] == c {
        strip_leading(s.drop_first(), c)
    } else {
        s
    }
}

/// The sequence with every trailing occurrence of `c` removed.
pub open spec fn strip_trailing(s: Seq<char>, c: char) -> Seq<char>
    decreases s.len(),
{
    if s.len() > 0 && s.last() == c {
        strip_trailing(s.drop_last(), c)
    } else {
        s
    }
}

pub proof fn lemma_strip_leading_at(s: Seq<char>, c: char, i: int)
    requires
        0 <= i <= s.len(),
        forall|j: int| 0 <= j < i ==> #[trigger] s[j] == c,
        i == s.len() || s[i] != c,
    ensures
        strip_leading(s, c) == s.skip(i),
    decreases i,
{
    if i == 0 {
        assert(s.skip(0) =~= s);
    } else {
        lemma_strip_leading_at(s.drop_first(), c, i - 1);
        assert(s.drop_first().skip(i - 1) =~= s.skip(i));
    }
}

pub proof fn lemma_strip_trailing_at(s: Seq<char>, c: char, i: int)
    requires
        0 <= i <= s.len(),
        forall|j: int| i <= j < s.len() ==> #[trigger] s[j] == c,
        i == 0 || s[i - 1] != c,
    ensures
        strip_trailing(s, c) == s.take(i),
    decreases s.len(),
{
    if i == s.len() {
        assert(s.take(i) =~= s);
        if s.len() > 0 && s.last() == c {
            lemma_strip_trailing_at(s.drop_last(), c, i - 1);
            assert(s.drop_last().take(i - 1) =~= s.take(i - 1));
        }
    } else {
        lemma_strip_trailing_at(s.drop_last(), c, i);
        assert(s.drop_last().take(i) =~= s.take(i));
    }
}

pub fn strip_leading_x(v: &Vec<char>, c: char) -> (r: Vec<char>)
    ensures
        r@ == strip_leading(v@, c),
{
    let mut i: usize = 0;
    while i < v.len() && v[i] == c
        invariant
            0 <= i <= v@.len(),
            forall|j: int| 0 <= j < i ==> #[trigger] v@[j] == c,
        decreases v@.len() - i,
    {
        i = i + 1;
    }
    proof {
        lemma_strip_leading_at(v@, c, i as int);
        assert(v@.skip(i as int) =~= v@.subrange(i as int, v@.len() as int));
    }
    copy_range(v, i, v.len())
}

pub fn strip_trailing_x(v: &Vec<char>, c: char) -> (r: Vec<char>)
    ensures
        r@ == strip_trailing(v@, c),
{
    let mut j: usize = v.len();
    while j > 0 && v[j - 1] == c
        invariant
            0 <= j <= v@.len(),
            forall|k: int| j <= k < v@.len() ==> #[trigger] v@[k] == c,
        decreases j,
    {
        j = j - 1;
    }
    proof {
        lemma_strip_trailing_at(v@, c, j as int);
        assert(v@.take(j as int) =~= v@.subrange(0, j as int));
    }
    copy_range(v, 0, j)
}

/// The sequence with every leading repetition of the pattern `p` removed.
pub open spec fn strip_runs(s: Seq<char>, p: Seq<char>) -> Seq<char>
    decreases s.len(),
{
    if p.len() > 0 && has_prefix(s, p) {
        strip_runs(s.skip(p.len() as int), p)
    } else {
        s
    }
}

pub fn strip_runs_x(v: &Vec<char>, p: &str) -> (r: Vec<char>)
    ensures
        r@ == strip_runs(v@, p@),
{
    let plen = p.unicode_len();
    if plen == 0 {
        proof {
            assert(v@.subrange(0, v@.len() as int) =~= v@);
        }
        return copy_range(v, 0, v.len());
    }
    let vlen = v.len();
    let mut off: usize = 0;
    proof {
        assert(v@.skip(0) =~= v@);
    }
    while has_prefix_at(v, off, p)
        invariant
            0 <= off <= vlen == v@.len(),
            plen == p@.len() > 0,
            strip_runs(v@, p@) == strip_runs(v@.skip(off as int), p@),
        decreases v@.len() - off,
    {
        proof {
            assert(off + plen <= vlen);
            assert(v@.skip(off as int).skip(plen as int) =~= v@.skip(off + plen));
        }
        off = off + plen;
    }
    proof {
        assert(v@.skip(off as int) =~= v@.subrange(off as int, v@.len() as int));
    }
    copy_range(v, off, v.len())
}

pub fn trim_end_x(v: &Vec<char>) -> (r: Vec<char>)
    ensures
        r@ == trim_end(v@),
{
    let mut j: usize = v.len();
    while j > 0 && is_space_x(v[j - 1])
        invariant
            0 <= j <= v@.len(),
            forall|k: int| j <= k < v@.len() ==> is_space(#[trigger] v@[k]),
        decreases j,
    {
        j = j - 1;
    }
    proof {
        lemma_trim_end_at(v@, j as int);
        assert(v@.take(j as int) =~= v@.subrange(0, j as int));
    }
    copy_range(v, 0, j)
}

/// Holds when `p` occurs in `s` at position `i`.
pub open spec fn contains_at(s: Seq<char>, p: Seq<char>, i: int) -> bool {
    0 <= i && i + p.len() <= s.len() && s.subrange(i, i + p.len()) == p
}

/// The position of the first occurrence of `p` in `s`, or `-1` if there is none.
pub open spec fn find_sub(s: Seq<char>, p: Seq<char>) -> int
    decreases s.len(),
{
    if has_prefix(s, p) {
        0
    } else if s.len() == 0 {
        -1
    } else if find_sub(s.drop_first(), p) < 0 {
        -1
    } else {
        find_sub(s.drop_first(), p) + 1
    }
}

pub proof fn lemma_contains_at_shift(s: Seq<char>, p: Seq<char>, i: int)
    requires
        s.len() > 0,
        1 <= i,
    ensures
        contains_at(s, p, i) == contains_at(s.drop_first(), p, i - 1),
{
    if i + p.len() <= s.len() {
        assert(s.drop_first().subrange(i - 1, i - 1 + p.len()) =~= s.subrange(i, i + p.len()));
    }
}

pub proof fn lemma_find_sub_found(s: Seq<char>, p: Seq<char>, i: int)
    requires
        contains_at(s, p, i),
        forall|j: int| 0 <= j < i ==> !contains_at(s, p, j),
    ensures
        find_sub(s, p) == i,
    decreases i,
{
    assert(has_prefix(s, p) == contains_at(s, p, 0)) by {
        assert(s.subrange(0, p.len() as int) =~= s.subrange(0, 0 + p.len() as int));
    }
    if i == 0 {
    } else {
        assert(!contains_at(s, p, 0));
        lemma_contains_at_shift(s, p, i);
        assert forall|j: int| 0 <= j < i - 1 implies !contains_at(s.drop_first(), p, j) by {
            lemma_contains_at_shift(s, p, j + 1);
        }
        lemma_find_sub_found(s.drop_first(), p, i - 1);
    }
}

pub proof fn lemma_find_sub_none(s: Seq<char>, p: Seq<char>)
    requires
        forall|j: int| !contains_at(s, p, j),
    ensures
        find_sub(s, p) == -1,
    decreases s.len(),
{
    assert(has_prefix(s, p) == contains_at(s, p, 0)) by {
        assert(s.subrange(0, p.len() as int) =~= s.subrange(0, 0 + p.len() as int));
    }
    if s.len() > 0 {
        assert forall|j: int| !contains_at(s.drop_first(), p, j) by {
            if 0 <= j {
                lemma_contains_at_shift(s, p, j + 1);
            }
        }
        lemma_find_sub_none(s.drop_first(), p);
    }
}

pub proof fn lemma_find_sub_valid(s: Seq<char>, p: Seq<char>)
    ensures
        find_sub(s, p) >= 0 ==> contains_at(s, p, find_sub(s, p)),
    decreases s.len(),
{
    assert(has_prefix(s, p) == contains_at(s, p, 0)) by {
        assert(s.subrange(0, p.len() as int) =~= s.subrange(0, 0 + p.len() as int));
    }
    if !has_prefix(s, p) && s.len() > 0 {
        lemma_find_sub_valid(s.drop_first(), p);
        if find_sub(s.drop_first(), p) >= 0 {
            lemma_contains_at_shift(s, p, find_sub(s.drop_first(), p) + 1);
        }
    }
}

/// Finds the first occurrence of `p` in `v`.
pub fn find_sub_x(v: &Vec<char>, p: &str) -> (r: Option<usize>)
    requires
        p@.len() > 0,
    ensures
        match r {
            Some(i) => find_sub(v@, p@) == i,
            None => find_sub(v@, p@) == -1,
        },
{
    let plen = p.unicode_len();
    let vlen = v.len();
    if plen > vlen {
        proof {
            lemma_find_sub_none(v@, p@);
        }
        return None;
    }
    let mut i: usize = 0;
    while i <= vlen - plen
        invariant
            0 <= i <= vlen - plen + 1,
            plen <= vlen == v@.len(),
            plen == p@.len() > 0,
            forall|j: int| 0 <= j < i ==> !contains_at(v@, p@, j),
        decreases vlen - i,
    {
        if has_prefix_at(v, i, p) {
            proof {
                assert(v@.skip(i as int).subrange(0, plen as int) =~= v@.subrange(
                    i as int,
                    i + plen,
                ));
                lemma_find_sub_found(v@, p@, i as int);
            }
            return Some(i);
        }
        proof {
            assert(v@.skip(i as int).subrange(0, plen as int) =~= v@.subrange(i as int, i + plen));
        }
        i = i + 1;
    }
    proof {
        assert forall|j: int| !contains_at(v@, p@, j) by {
            if 0 <= j && j + plen <= vlen {
                assert(j < i);
            }
        }
        lemma_find_sub_none(v@, p@);
    }
    None
}

/// The first whitespace-delimited token of `s`, empty if `s` is empty or
/// starts with whitespace.
pub open spec fn first_token(s: Seq<char>) -> Seq<char>
    decreases s.len(),
{
    if s.len() == 0 || is_space(s[0]) {
        Seq::empty()
    } else {
        seq![s[0]] + first_token(s.drop_first())
    }
}

/// `s` without its first whitespace-delimited token.
pub open spec fn skip_token(s: Seq<char>) -> Seq<char>
    decreases s.len(),
{
    if s.len() > 0 && !is_space(s[0]) {
        skip_token(s.drop_first())
    } else {
        s
    }
}

/// The second whitespace-delimited token of `s`.
pub open spec fn second_token(s: Seq<char>) -> Seq<char> {
    first_token(trim_start(skip_token(s)))
}

pub proof fn lemma_first_token_at(s: Seq<char>, i: int)
    requires
        0 <= i <= s.len(),
        forall|j: int| 0 <= j < i ==> !is_space(#[trigger] s[j]),
        i == s.len() || is_space(s[i]),
    ensures
        first_token(s) == s.take(i),
        skip_token(s) == s.skip(i),
    decreases i,
{
    if i == 0 {
        assert(s.take(0) =~= Seq::<char>::empty());
        assert(s.skip(0) =~= s);
    } else {
        lemma_first_token_at(s.drop_first(), i - 1);
        assert(seq![s[0]] + s.drop_first().take(i - 1) =~= s.take(i));
        assert(s.drop_first().skip(i - 1) =~= s.skip(i));
    }
}

/// Extracts the first whitespace-delimited token of `v`.
pub fn first_token_x(v: &Vec<char>) -> (r: Vec<char>)
    ensures
        r@ == first_token(v@),
{
    let vlen = v.len();
    let mut i: usize = 0;
    while i < vlen && !is_space_x(v[i])
        invariant
            0 <= i <= vlen == v@.len(),
            forall|j: int| 0 <= j < i ==> !is_space(#[trigger] v@[j]),
        decreases vlen - i,
    {
        i = i + 1;
    }
    proof {
        lemma_first_token_at(v@, i as int);
        assert(v@.take(i as int) =~= v@.subrange(0, i as int));
    }
    copy_range(v, 0, i)
}

/// Extracts the second whitespace-delimited token of `v`.
pub fn second_token_x(v: &Vec<char>) -> (r: Vec<char>)
    ensures
        r@ == second_token(v@),
{
    let vlen = v.len();
    let mut a: usize = 0;
    while a < vlen && !is_space_x(v[a])
        invariant
            0 <= a <= vlen == v@.len(),
            forall|j: int| 0 <= j < a ==> !is_space(#[trigger] v@[j]),
        decreases vlen - a,
    {
        a = a + 1;
    }
    proof {
        lemma_first_token_at(v@, a as int);
    }
    let mut b: usize = a;
    while b < vlen && is_space_x(v[b])
        invariant
            a <= b <= vlen == v@.len(),
            forall|j: int| a <= j < b ==> is_space(#[trigger] v@[j]),
        decreases vlen - b,
    {
        b = b + 1;
    }
    proof {
        let sk = v@.skip(a as int);
        assert forall|j: int| 0 <= j < b - a implies is_space(#[trigger] sk[j]) by {
            assert(sk[j] == v@[a + j]);
        }
        if b < vlen {
            assert(sk[b - a] == v@[b as int]);
        }
        lemma_trim_start_at(sk, b - a);
        assert(sk.skip(b - a) =~= v@.skip(b as int));
    }
    let mut c: usize = b;
    while c < vlen && !is_space_x(v[c])
        invariant
            b <= c <= vlen == v@.len(),
            forall|j: int| b <= j < c ==> !is_space(#[trigger] v@[j]),
        decreases vlen - c,
    {
        c = c + 1;
    }
    proof {
        let sk = v@.skip(b as int);
        assert forall|j: int| 0 <= j < c - b implies !is_space(#[trigger] sk[j]) by {
            assert(sk[j] == v@[b + j]);
        }
        if c < vlen {
            assert(sk[c - b] == v@[c as int]);
        }
        lemma_first_token_at(sk, c - b);
        assert(sk.take(c - b) =~= v@.subrange(b as int, c as int));
    }
    copy_range(v, b, c)
}

/// Holds when some element of `s` is `c`.
pub open spec fn contains_char(s: Seq<char>, c: char) -> bool {
    exists|i: int| 0 <= i < s.len() && s[i] == c
}

pub fn contains_char_x(v: &Vec<char>, c: char) -> (b: bool)
    ensures
        b == contains_char(v@, c),
{
    let vlen = v.len();
    let mut i: usize = 0;
    while i < vlen
        invariant
            0 <= i <= vlen == v@.len(),
            forall|j: int| 0 <= j < i ==> v@[j] != c,
        decreases vlen - i,
    {
        if v[i] == c {
            return true;
        }
        i = i + 1;
    }
    false
}

/// Compares the characters of `v` with those of `p`.
pub fn seq_eq_str(v: &Vec<char>, p: &str) -> (b: bool)
    ensures
        b == (v@ == p@),
{
    let plen = p.unicode_len();
    if v.len() != plen {
        return false;
    }
    let mut i: usize = 0;
    while i < plen
        invariant
            0 <= i <= plen == p@.len() == v@.len(),
            forall|j: int| 0 <= j < i ==> v@[j] == p@[j],
        decreases plen - i,
    {
        if v[i] != p.get_char(i) {
            return false;
        }
        i = i + 1;
    }
    proof {
        assert(v@ =~= p@);
    }
    true
}

/// Relies on `String::push`: appends the given character to the end of the
/// string.
#[verifier::external_body]
fn push_char(s: &mut String, c: char)
    ensures
        final(s)@ == old(s)@.push(c),
{
    s.push(c);
}

/// Builds a `String` whose characters are those of `v`.
pub fn string_of(v: &Vec<char>) -> (r: String)
    ensures
        r@ == v@,
{
    let vlen = v.len();
    let mut r = String::new();
    let mut i: usize = 0;
    while i < vlen
        invariant
            0 <= i <= vlen == v@.len(),
            r@ == v@.take(i as int),
        decreases vlen - i,
    {
        push_char(&mut r, v[i]);
        i = i + 1;
        proof {
            assert(v@.take(i - 1).push(v@[i - 1]) =~= v@.take(i as int));
        }
    }
    proof {
        assert(v@.take(vlen as int) =~= v@);
    }
    r
}

/// Collects the characters of `s` into a vector.
pub fn chars_of(s: &str) -> (r: Vec<char>)
    ensures
        r@ == s@,
{
    let slen = s.unicode_len();
    let mut r: Vec<char> = Vec::new();
    let mut i: usize = 0;
    while i < slen
        invariant
            0 <= i <= slen == s@.len(),
            r@ == s@.take(i as int),
        decreases slen - i,
    {
        r.push(s.get_char(i));
        i = i + 1;
        proof {
            assert(s@.take(i - 1).push(s@[i - 1]) =~= s@.take(i as int));
        }
    }
    proof {
        assert(s@.take(slen as int) =~= s@);
    }
    r
}

} // verus!
