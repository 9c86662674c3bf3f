//! Character-sequence helpers shared by the parsers: trimming, case folding,
//! searching and splitting, each stated over `Seq<char>`.
use vstd::prelude::*;

verus! {

/// The Unicode `White_Space` property, which is what `str::trim` strips.
pub open spec fn is_ws(c: char) -> bool {
    let u = c as u32;
    (9 <= u && u <= 13) || u == 32 || u == 0x85 || u == 0xa0 || u == 0x1680 || (0x2000 <= u
        && u <= 0x200a) || u == 0x2028 || u == 0x2029 || u == 0x202f || u == 0x205f || u == 0x3000
}

pub fn is_whitespace(c: char) -> (r: bool)
    ensures
        r == is_ws(c),
{
    let u = c as u32;
    (9 <= u && u <= 13) || u == 32 || u == 0x85 || u == 0xa0 || u == 0x1680 || (0x2000 <= u
        && u <= 0x200a) || u == 0x2028 || u == 0x2029 || u == 0x202f || u == 0x205f || u == 0x3000
}

/// Which characters a strip removes: whitespace, one given character, or
/// the punctuation that wraps a list item (whitespace, backticks and
/// parentheses).
#[derive(Clone, Copy)]
pub enum CharClass {
    Space,
    Exactly(char),
    ItemWrap,
}

pub open spec fn in_class(c: char, k: CharClass) -> bool {
    match k {
        CharClass::Space => is_ws(c),
        CharClass::Exactly(x) => c == x,
        CharClass::ItemWrap => is_ws(c) || c == '`' || c == '(' || c == ')',
    }
}

fn class_has(c: char, k: CharClass) -> (r: bool)
    ensures
        r == in_class(c, k),
{
    match k {
        CharClass::Space => is_whitespace(c),
        CharClass::Exactly(x) => c == x,
        CharClass::ItemWrap => is_whitespace(c) || c == '`' || c == '(' || c == ')',
    }
}

/// Drops leading characters of class `k`.
pub open spec fn strip_start(s: Seq<char>, k: CharClass) -> Seq<char>
    decreases s.len(),
{
    if s.len() > 0 && in_class(s[0], k) {
        strip_start(s.drop_first(), k)
    } else {
        s
    }
}

/// Drops trailing characters of class `k`.
pub open spec fn strip_end(s: Seq<char>, k: CharClass) -> Seq<char>
    decreases s.len(),
{
    if s.len() > 0 && in_class(s.last(), k) {
        strip_end(s.drop_last(), k)
    } else {
        s
    }
}

/// Drops characters of class `k` from both ends.
pub open spec fn strip(s: Seq<char>, k: CharClass) -> Seq<char> {
    strip_end(strip_start(s, k), k)
}

/// Whitespace removed from both ends.
pub open spec fn trim(s: Seq<char>) -> Seq<char> {
    strip(s, CharClass::Space)
}

/// ASCII upper-case letters mapped to lower case, all else unchanged.
pub open spec fn lower_char(c: char) -> char {
    if 'A' <= c && c <= 'Z' {
        ((c as u32 + 32) as u32) as char
    } else {
        c
    }
}

pub open spec fn lower(s: Seq<char>) -> Seq<char> {
    s.map_values(|c: char| lower_char(c))
}

/// `pat` stands in `s` at position `i`.
pub open spec fn occurs_at(s: Seq<char>, pat: Seq<char>, i: int) -> bool {
    0 <= i && i + pat.len() <= s.len() && s.subrange(i, i + pat.len()) == pat
}

/// The first position at or after `i` where `pat` stands in `s`.
pub open spec fn find_from(s: Seq<char>, pat: Seq<char>, i: int) -> Option<int>
    decreases s.len() + 1 - i,
{
    if i < 0 || i + pat.len() > s.len() {
        None
    } else if occurs_at(s, pat, i) {
        Some(i)
    } else {
        find_from(s, pat, i + 1)
    }
}

/// The first position where `pat` stands in `s`.
pub open spec fn find(s: Seq<char>, pat: Seq<char>) -> Option<int> {
    find_from(s, pat, 0)
}

/// The last position below `n` where `pat` stands in `s`.
pub open spec fn rfind_below(s: Seq<char>, pat: Seq<char>, n: int) -> Option<int>
    decreases n,
{
    if n <= 0 {
        None
    } else if occurs_at(s, pat, n - 1) {
        Some(n - 1)
    } else {
        rfind_below(s, pat, n - 1)
    }
}

/// The last position where `pat` stands in `s`.
pub open spec fn rfind(s: Seq<char>, pat: Seq<char>) -> Option<int> {
    rfind_below(s, pat, s.len() + 1int)
}

pub open spec fn contains(s: Seq<char>, pat: Seq<char>) -> bool {
    find(s, pat) is Some
}

pub open spec fn starts_with(s: Seq<char>, pat: Seq<char>) -> bool {
    occurs_at(s, pat, 0)
}

/// The pieces of `s` between separators, scanned from the left: the pieces
/// already closed and the one still open.
pub open spec fn split_acc(s: Seq<char>, sep: char) -> (Seq<Seq<char>>, Seq<char>)
    decreases s.len(),
{
    if s.len() == 0 {
        (Seq::empty(), Seq::empty())
    } else {
        let (done, cur) = split_acc(s.drop_last(), sep);
        if s.last() == sep {
            (done.push(cur), Seq::empty())
        } else {
            (done, cur.push(s.last()))
        }
    }
}

/// The character sequences held by a vector of character vectors.
pub open spec fn views(s: Seq<Vec<char>>) -> Seq<Seq<char>> {
    s.map_values(|x: Vec<char>| x@)
}

/// `s` cut at every `sep`, as `str::split` does: `n` separators give `n + 1`
/// pieces.
pub open spec fn split(s: Seq<char>, sep: char) -> Seq<Seq<char>> {
    split_acc(s, sep).0.push(split_acc(s, sep).1)
}

/// The characters of `s`, in order.
pub fn chars_of(s: &str) -> (r: Vec<char>)
    ensures
        r@ == s@,
{
    let n = s.unicode_len();
    let mut r: Vec<char> = Vec::new();
    let mut i: usize = 0;
    while i < n
        invariant
            n == s@.len(),
            i <= n,
            r@ == s@.take(i as int),
        decreases n - i,
    {
        let c = s.get_char(i);
        r.push(c);
        proof {
            assert(s@.take(i + 1) =~= s@.take(i as int).push(c));
        }
        i += 1;
    }
    proof {
        assert(s@.take(n as int) =~= s@);
    }
    r
}

/// Relies on std's `FromIterator<char>` for `String`: the string holds the
/// characters in the order given.
#[verifier::external_body]
pub(crate) fn string_of(v: &Vec<char>) -> (r: String)
    ensures
        r@ == v@,
{
    v.iter().collect()
}

/// A copy of `v[lo..hi]`.
pub fn copy_range(v: &Vec<char>, lo: usize, hi: usize) -> (r: Vec<char>)
    requires
        lo <= hi <= v@.len(),
    ensures
        r@ == v@.subrange(lo as int, hi as int),
{
    let mut r: Vec<char> = Vec::new();
    let mut i = lo;
    while i < hi
        invariant
            lo <= i <= hi <= v@.len(),
            r@ == v@.subrange(lo as int, i as int),
        decreases hi - i,
    {
        r.push(v[i]);
        proof {
            assert(v@.subrange(lo as int, i + 1) =~= v@.subrange(lo as int, i as int).push(v@[i as int]));
        }
        i += 1;
    }
    r
}

/// Whether two character vectors hold the same characters.
pub fn same_chars(a: &Vec<char>, b: &Vec<char>) -> (r: bool)
    ensures
        r == (a@ == b@),
{
    if a.len() != b.len() {
        return false;
    }
    let mut i: usize = 0;
    while i < a.len()
        invariant
            a@.len() == b@.len(),
            i <= a@.len(),
            forall|k: int| 0 <= k < i ==> a@[k] == b@[k],
        decreases a.len() - i,
    {
        if a[i] != b[i] {
            return false;
        }
        i += 1;
    }
    proof {
        assert(a@ =~= b@);
    }
    true
}

/// Whether `a` holds exactly the characters of `lit`.
pub fn is_text(a: &Vec<char>, lit: &str) -> (r: bool)
    ensures
        r == (a@ == lit@),
{
    let b = chars_of(lit);
    same_chars(a, &b)
}

/// The index at which the leading run of class `k` in `v[lo..hi]` ends.
pub fn strip_start_at(v: &Vec<char>, lo: usize, hi: usize, k: CharClass) -> (i: usize)
    requires
        lo <= hi <= v@.len(),
    ensures
        lo <= i <= hi,
        strip_start(v@.subrange(lo as int, hi as int), k) == v@.subrange(i as int, hi as int),
{
    let mut i = lo;
    while i < hi && class_has(v[i], k)
        invariant
            lo <= i <= hi <= v@.len(),
            strip_start(v@.subrange(lo as int, hi as int), k) == strip_start(
                v@.subrange(i as int, hi as int),
                k,
            ),
        decreases hi - i,
    {
        proof {
            let sub = v@.subrange(i as int, hi as int);
            assert(sub[0] == v@[i as int]);
            assert(sub.drop_first() =~= v@.subrange(i + 1, hi as int));
        }
        i += 1;
    }
    proof {
        let sub = v@.subrange(i as int, hi as int);
        if i < hi {
            assert(sub[0] == v@[i as int]);
        }
    }
    i
}

/// The index at which `v[lo..hi]` ends once its trailing run of class `k` is
/// dropped.
pub fn strip_end_at(v: &Vec<char>, lo: usize, hi: usize, k: CharClass) -> (j: usize)
    requires
        lo <= hi <= v@.len(),
    ensures
        lo <= j <= hi,
        strip_end(v@.subrange(lo as int, hi as int), k) == v@.subrange(lo as int, j as int),
{
    let mut j = hi;
    while j > lo && class_has(v[j - 1], k)
        invariant
            lo <= j <= hi <= v@.len(),
            strip_end(v@.subrange(lo as int, hi as int), k) == strip_end(
                v@.subrange(lo as int, j as int),
                k,
            ),
        decreases j - lo,
    {
        proof {
            let sub = v@.subrange(lo as int, j as int);
            assert(sub.last() == v@[j - 1]);
            assert(sub.drop_last() =~= v@.subrange(lo as int, j - 1));
        }
        j -= 1;
    }
    proof {
        let sub = v@.subrange(lo as int, j as int);
        if j > lo {
            assert(sub.last() == v@[j - 1]);
        }
    }
    j
}

/// `v` without characters of class `k` at either end.
pub fn strip_chars(v: &Vec<char>, k: CharClass) -> (r: Vec<char>)
    ensures
        r@ == strip(v@, k),
{
    proof {
        assert(v@.subrange(0, v@.len() as int) =~= v@);
    }
    let i = strip_start_at(v, 0, v.len(), k);
    let j = strip_end_at(v, i, v.len(), k);
    copy_range(v, i, j)
}

/// `v` without surrounding whitespace.
pub fn trim_chars(v: &Vec<char>) -> (r: Vec<char>)
    ensures
        r@ == trim(v@),
{
    strip_chars(v, CharClass::Space)
}

/// `v` without leading characters of class `k`.
pub fn strip_start_chars(v: &Vec<char>, k: CharClass) -> (r: Vec<char>)
    ensures
        r@ == strip_start(v@, k),
{
    proof {
        assert(v@.subrange(0, v@.len() as int) =~= v@);
    }
    let i = strip_start_at(v, 0, v.len(), k);
    copy_range(v, i, v.len())
}

/// `v` without trailing characters of class `k`.
pub fn strip_end_chars(v: &Vec<char>, k: CharClass) -> (r: Vec<char>)
    ensures
        r@ == strip_end(v@, k),
{
    proof {
        assert(v@.subrange(0, v@.len() as int) =~= v@);
    }
    let j = strip_end_at(v, 0, v.len(), k);
    copy_range(v, 0, j)
}

pub fn lower_char_exec(c: char) -> (r: char)
    ensures
        r == lower_char(c),
{
    if 'A' <= c && c <= 'Z' {
        ((c as u8) + 32) as char
    } else {
        c
    }
}

/// `v` with ASCII letters in lower case.
pub fn lower_chars(v: &Vec<char>) -> (r: Vec<char>)
    ensures
        r@ == lower(v@),
{
    let mut r: Vec<char> = Vec::new();
    let mut i: usize = 0;
    while i < v.len()
        invariant
            i <= v@.len(),
            r@ == lower(v@.take(i as int)),
        decreases v.len() - i,
    {
        let c = lower_char_exec(v[i]);
        r.push(c);
        proof {
            assert(lower(v@.take(i + 1)) =~= lower(v@.take(i as int)).push(c));
        }
        i += 1;
    }
    proof {
        assert(v@.take(v@.len() as int) =~= v@);
    }
    r
}

/// Whether `pat` stands in `v` at position `i`.
pub fn occurs_at_exec(v: &Vec<char>, pat: &Vec<char>, i: usize) -> (r: bool)
    ensures
        r == occurs_at(v@, pat@, i as int),
{
    if i > v.len() || pat.len() > v.len() - i {
        return false;
    }
    let mut k: usize = 0;
    while k < pat.len()
        invariant
            i + pat@.len() <= v@.len(),
            v@.len() <= usize::MAX,
            k <= pat@.len(),
            forall|m: int| 0 <= m < k ==> v@[i + m] == pat@[m],
        decreases pat.len() - k,
    {
        if v[i + k] != pat[k] {
            proof {
                assert(v@.subrange(i as int, i + pat@.len())[k as int] != pat@[k as int]);
            }
            return false;
        }
        k += 1;
    }
    proof {
        assert(v@.subrange(i as int, i + pat@.len()) =~= pat@);
    }
    true
}

/// The first position of `pat` in `v`.
pub fn find_exec(v: &Vec<char>, pat: &Vec<char>) -> (r: Option<usize>)
    ensures
        match r {
            Some(i) => find(v@, pat@) == Some(i as int) && occurs_at(v@, pat@, i as int),
            None => find(v@, pat@) is None,
        },
{
    if pat.len() > v.len() {
        return None;
    }
    let lim = v.len() - pat.len();
    let mut i: usize = 0;
    loop
        invariant
            i <= lim,
            lim + pat@.len() == v@.len(),
            find(v@, pat@) == find_from(v@, pat@, i as int),
        decreases lim - i,
    {
        if occurs_at_exec(v, pat, i) {
            return Some(i);
        }
        if i == lim {
            proof {
                assert(find_from(v@, pat@, i + 1) is None);
            }
            return None;
        }
        i += 1;
    }
}

/// The last position of `pat` in `v`.
pub fn rfind_exec(v: &Vec<char>, pat: &Vec<char>) -> (r: Option<usize>)
    ensures
        match r {
            Some(i) => rfind(v@, pat@) == Some(i as int) && occurs_at(v@, pat@, i as int),
            None => rfind(v@, pat@) is None,
        },
{
    let mut n: usize = v.len();
    while n > 0 && !occurs_at_exec(v, pat, n)
        invariant
            n <= v@.len(),
            rfind(v@, pat@) == rfind_below(v@, pat@, n + 1),
        decreases n,
    {
        n -= 1;
    }
    if occurs_at_exec(v, pat, n) {
        Some(n)
    } else {
        proof {
            assert(n == 0);
            assert(rfind_below(v@, pat@, 0) is None);
        }
        None
    }
}

/// Whether `v` contains `lit`.
pub fn contains_text(v: &Vec<char>, lit: &str) -> (r: bool)
    ensures
        r == contains(v@, lit@),
{
    let p = chars_of(lit);
    find_exec(v, &p).is_some()
}

/// Whether `v` begins with `lit`.
pub fn starts_with_text(v: &Vec<char>, lit: &str) -> (r: bool)
    ensures
        r == starts_with(v@, lit@),
{
    let p = chars_of(lit);
    occurs_at_exec(v, &p, 0)
}

/// `v` cut at every `sep`.
pub fn split_chars(v: &Vec<char>, sep: char) -> (r: Vec<Vec<char>>)
    ensures
        views(r@) == split(v@, sep),
{
    let mut done: Vec<Vec<char>> = Vec::new();
    let mut cur: Vec<char> = Vec::new();
    let mut i: usize = 0;
    while i < v.len()
        invariant
            i <= v@.len(),
            (views(done@), cur@) == split_acc(v@.take(i as int), sep),
        decreases v.len() - i,
    {
        let c = v[i];
        proof {
            assert(v@.take(i + 1).drop_last() =~= v@.take(i as int));
        }
        if c == sep {
            let old_cur = cur;
            cur = Vec::new();
            done.push(old_cur);
            proof {
                assert(views(done@) =~= split_acc(v@.take(i as int), sep).0.push(old_cur@));
            }
        } else {
            cur.push(c);
        }
        i += 1;
    }
    proof {
        assert(v@.take(v@.len() as int) =~= v@);
    }
    let ghost before = views(done@);
    done.push(cur);
    proof {
        assert(views(done@) =~= before.push(split_acc(v@, sep).1));
    }
    done
}

} // verus!

verus! {

/// The part of `s` before the first `c`, or all of `s`.
pub open spec fn upto_char(s: Seq<char>, c: char) -> Seq<char> {
    match find(s, seq![c]) {
        Some(i) => s.take(i),
        None => s,
    }
}

/// The part of `s` after the last `c`, or all of `s`.
pub open spec fn after_last_char(s: Seq<char>, c: char) -> Seq<char> {
    match rfind(s, seq![c]) {
        Some(i) => s.skip(i + 1),
        None => s,
    }
}

/// The pieces that are not empty, in order.
pub open spec fn keep_nonempty(s: Seq<Seq<char>>) -> Seq<Seq<char>>
    decreases s.len(),
{
    if s.len() == 0 {
        Seq::empty()
    } else if s.last().len() > 0 {
        keep_nonempty(s.drop_last()).push(s.last())
    } else {
        keep_nonempty(s.drop_last())
    }
}

pub fn upto_char_exec(v: &Vec<char>, c: char) -> (r: Vec<char>)
    ensures
        r@ == upto_char(v@, c),
{
    let mut p: Vec<char> = Vec::new();
    p.push(c);
    proof {
        assert(p@ =~= seq![c]);
    }
    match find_exec(v, &p) {
        Some(i) => copy_range(v, 0, i),
        None => copy_range(v, 0, v.len()),
    }
}

pub fn after_last_char_exec(v: &Vec<char>, c: char) -> (r: Vec<char>)
    ensures
        r@ == after_last_char(v@, c),
{
    let mut p: Vec<char> = Vec::new();
    p.push(c);
    proof {
        assert(p@ =~= seq![c]);
    }
    match rfind_exec(v, &p) {
        Some(i) => {
            let n = v.len();
            assert(p@.len() == 1);
            copy_range(v, i + 1, n)
        },
        None => {
            proof {
                assert(v@.subrange(0, v@.len() as int) =~= v@);
            }
            copy_range(v, 0, v.len())
        },
    }
}

/// Appends the characters of `src` to `dst`.
pub fn append_chars(dst: &mut Vec<char>, src: &Vec<char>)
    ensures
        final(dst)@ == old(dst)@ + src@,
{
    let mut i: usize = 0;
    while i < src.len()
        invariant
            i <= src@.len(),
            dst@ == old(dst)@ + src@.take(i as int),
        decreases src.len() - i,
    {
        dst.push(src[i]);
        proof {
            assert(old(dst)@ + src@.take(i + 1) =~= (old(dst)@ + src@.take(i as int)).push(src@[i as int]));
        }
        i += 1;
    }
    proof {
        assert(src@.take(i as int) =~= src@);
    }
}

/// The pieces that are not empty, in order.
pub fn keep_nonempty_exec(s: Vec<Vec<char>>) -> (r: Vec<Vec<char>>)
    ensures
        views(r@) == keep_nonempty(views(s@)),
{
    let ghost sv = views(s@);
    let mut r: Vec<Vec<char>> = Vec::new();
    let mut i: usize = 0;
    while i < s.len()
        invariant
            sv == views(s@),
            i <= s@.len(),
            views(r@) == keep_nonempty(sv.take(i as int)),
        decreases s.len() - i,
    {
        proof {
            assert(sv.take(i + 1).drop_last() =~= sv.take(i as int));
            assert(sv.take(i + 1).last() == s@[i as int]@);
        }
        if s[i].len() > 0 {
            let ghost before = views(r@);
            r.push(copy_range(&s[i], 0, s[i].len()));
            proof {
                assert(s@[i as int]@.subrange(0, s@[i as int]@.len() as int) =~= s@[i as int]@);
                assert(views(r@) =~= before.push(s@[i as int]@));
            }
        }
        i += 1;
    }
    proof {
        assert(sv.take(i as int) =~= sv);
    }
    r
}

} // verus!
