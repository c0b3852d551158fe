//! Text as sequences of characters: searching, splitting, trimming and the
//! decimal notation of integers.

use vstd::prelude::*;

verus! {

/// The characters of `s`, in order. Rests on `str::chars`, whose items are
/// collected as they come: the result holds exactly the characters of `s`.
#[verifier::external_body]
pub(crate) fn chars_of(s: &str) -> (r: Vec<char>)
    ensures
        r@ == s@,
{
    s.chars().collect()
}

/// The string made of the characters of `v`, in order. Rests on `String`'s
/// `FromIterator<char>`, which appends each character in turn.
#[verifier::external_body]
pub(crate) fn text_of(v: &Vec<char>) -> (r: String)
    ensures
        r@ == v@,
{
    v.iter().collect()
}

/// The first position at or after `start` where `s` holds `c`, or the length
/// of `s` where there is none.
pub open spec fn find_from(s: Seq<char>, start: int, c: char) -> int
    decreases s.len() - start,
{
    if start < 0 || start >= s.len() {
        s.len() as int
    } else if s[start] == c {
        start
    } else {
        find_from(s, start + 1, c)
    }
}

/// Finds the first `c` at or after `start`; the length of `s` where there is
/// none.
pub fn find_char(s: &Vec<char>, start: usize, c: char) -> (r: usize)
    requires
        start <= s@.len(),
    ensures
        r == find_from(s@, start as int, c),
        start <= r <= s@.len(),
        forall|j: int| start <= j < r ==> s@[j] != c,
        r < s@.len() ==> s@[r as int] == c,
{
    let mut i: usize = start;
    while i < s.len() && s[i] != c
        invariant
            start <= i <= s@.len(),
            find_from(s@, start as int, c) == find_from(s@, i as int, c),
            forall|j: int| start <= j < i ==> s@[j] != c,
        decreases s@.len() - i,
    {
        i = i + 1;
    }
    i
}

/// A copy of the characters of `s` from `from` up to, not including, `to`.
pub fn slice(s: &Vec<char>, from: usize, to: usize) -> (r: Vec<char>)
    requires
        from <= to <= s@.len(),
    ensures
        r@ == s@.subrange(from as int, to as int),
{
    let mut r: Vec<char> = Vec::new();
    let mut i: usize = from;
    while i < to
        invariant
            from <= i <= to <= s@.len(),
            r@ == s@.subrange(from as int, i as int),
        decreases to - i,
    {
        r.push(s[i]);
        i = i + 1;
        assert(r@ =~= s@.subrange(from as int, i as int));
    }
    r
}

/// The parts of `s` before and after its first `c`, where it holds one.
pub open spec fn split_at_first(s: Seq<char>, c: char) -> Option<(Seq<char>, Seq<char>)> {
    let i = find_from(s, 0, c);
    if i >= s.len() {
        None
    } else {
        Some((s.subrange(0, i), s.subrange(i + 1, s.len() as int)))
    }
}

/// Cuts `s` at its first `c`.
pub fn split_once(s: &Vec<char>, c: char) -> (r: Option<(Vec<char>, Vec<char>)>)
    ensures
        match r {
            None => split_at_first(s@, c) is None,
            Some((l, t)) => split_at_first(s@, c) == Some((l@, t@)),
        },
{
    let i = find_char(s, 0, c);
    if i >= s.len() {
        None
    } else {
        Some((slice(s, 0, i), slice(s, i + 1, s.len())))
    }
}

/// `p` stands in `s` at position `at`.
pub open spec fn occurs_at(s: Seq<char>, p: Seq<char>, at: int) -> bool {
    0 <= at && at + p.len() <= s.len() && s.subrange(at, at + p.len()) == p
}

/// Whether `p` stands in `s` at position `at`.
pub fn matches_at(s: &Vec<char>, p: &Vec<char>, at: usize) -> (r: bool)
    ensures
        r == occurs_at(s@, p@, at as int),
{
    if at > s.len() || p.len() > s.len() - at {
        return false;
    }
    let mut i: usize = 0;
    while i < p.len()
        invariant
            at + p@.len() <= s@.len() <= usize::MAX,
            0 <= i <= p@.len(),
            forall|j: int| 0 <= j < i ==> s@[at + j] == p@[j],
        decreases p@.len() - i,
    {
        if s[at + i] != p[i] {
            proof {
                assert(s@.subrange(at as int, at + p@.len())[i as int] == s@[at + i]);
            }
            return false;
        }
        i = i + 1;
    }
    assert(s@.subrange(at as int, at + p@.len()) =~= p@);
    true
}

/// Whether two texts hold the same characters.
pub fn same(a: &Vec<char>, b: &Vec<char>) -> (r: bool)
    ensures
        r == (a@ == b@),
{
    if a.len() != b.len() {
        return false;
    }
    let r = matches_at(a, b, 0);
    assert(a@.subrange(0, a@.len() as int) =~= a@);
    r
}

/// `a` followed by `b`.
pub fn concat(a: &Vec<char>, b: &Vec<char>) -> (r: Vec<char>)
    ensures
        r@ == a@ + b@,
{
    let mut r: Vec<char> = slice(a, 0, a.len());
    assert(r@ =~= a@);
    let mut i: usize = 0;
    while i < b.len()
        invariant
            0 <= i <= b@.len(),
            r@ == a@ + b@.subrange(0, i as int),
        decreases b@.len() - i,
    {
        r.push(b[i]);
        i = i + 1;
        assert(r@ =~= a@ + b@.subrange(0, i as int));
    }
    assert(b@.subrange(0, b@.len() as int) =~= b@);
    r
}

/// Whether `s` starts with `p`.
pub fn starts_with(s: &Vec<char>, p: &Vec<char>) -> (r: bool)
    ensures
        r == occurs_at(s@, p@, 0),
{
    matches_at(s, p, 0)
}

/// Whether `s` ends with `p`.
pub fn ends_with(s: &Vec<char>, p: &Vec<char>) -> (r: bool)
    ensures
        r == (p@.len() <= s@.len() && occurs_at(s@, p@, s@.len() - p@.len())),
{
    if p.len() > s.len() {
        false
    } else {
        matches_at(s, p, s.len() - p.len())
    }
}

/// The first position at or after `k` where `p` stands in `s`, or -1 where it
/// stands nowhere from there on.
pub open spec fn sub_from(s: Seq<char>, p: Seq<char>, k: int) -> int
    decreases s.len() + 1 - k,
{
    if k < 0 || k + p.len() > s.len() {
        -1
    } else if occurs_at(s, p, k) {
        k
    } else {
        sub_from(s, p, k + 1)
    }
}

/// What `sub_from` finds is the first occurrence at or after `k`; where it
/// finds none, there is none.
pub proof fn lemma_sub_from(s: Seq<char>, p: Seq<char>, k: int)
    requires
        0 <= k,
    ensures
        sub_from(s, p, k) == -1 || (k <= sub_from(s, p, k) && occurs_at(s, p, sub_from(s, p, k))),
        forall|j: int|
            k <= j && (sub_from(s, p, k) == -1 || j < sub_from(s, p, k)) ==> !occurs_at(s, p, j),
    decreases s.len() + 1 - k,
{
    if k + p.len() <= s.len() && !occurs_at(s, p, k) {
        lemma_sub_from(s, p, k + 1);
    }
}

/// The parts of `s` before and after the first place where `p` stands in it.
pub open spec fn split_at_sub(s: Seq<char>, p: Seq<char>) -> Option<(Seq<char>, Seq<char>)> {
    let i = sub_from(s, p, 0);
    if i < 0 {
        None
    } else {
        Some((s.subrange(0, i), s.subrange(i + p.len(), s.len() as int)))
    }
}

/// Finds the first place where `p` stands in `s`.
pub fn find_sub(s: &Vec<char>, p: &Vec<char>) -> (r: Option<usize>)
    ensures
        match r {
            None => sub_from(s@, p@, 0) == -1 && forall|k: int| 0 <= k ==> !occurs_at(s@, p@, k),
            Some(i) => sub_from(s@, p@, 0) == i && occurs_at(s@, p@, i as int) && forall|k: int|
                0 <= k < i ==> !occurs_at(s@, p@, k),
        },
{
    proof {
        lemma_sub_from(s@, p@, 0);
    }
    if p.len() > s.len() {
        return None;
    }
    let last: usize = s.len() - p.len();
    let mut i: usize = 0;
    loop
        invariant
            last == s@.len() - p@.len(),
            0 <= i <= last,
            sub_from(s@, p@, 0) == sub_from(s@, p@, i as int),
        decreases last - i,
    {
        if matches_at(s, p, i) {
            proof {
                lemma_sub_from(s@, p@, 0);
            }
            return Some(i);
        }
        if i == last {
            assert(sub_from(s@, p@, i + 1) == -1);
            proof {
                lemma_sub_from(s@, p@, 0);
            }
            return None;
        }
        i = i + 1;
    }
}

/// Cuts `s` at the first place where `p` stands in it.
pub fn split_once_sub(s: &Vec<char>, p: &Vec<char>) -> (r: Option<(Vec<char>, Vec<char>)>)
    ensures
        match r {
            None => split_at_sub(s@, p@) is None,
            Some((l, t)) => split_at_sub(s@, p@) == Some((l@, t@)),
        },
{
    match find_sub(s, p) {
        None => None,
        Some(i) => {
            let n = s.len();
            let l = slice(s, 0, i);
            let t = slice(s, i + p.len(), n);
            Some((l, t))
        },
    }
}

/// The characters with the Unicode property `White_Space`.
pub open spec fn is_space(c: char) -> bool {
    let n = c as u32;
    (0x09 <= n <= 0x0d) || n == 0x20 || n == 0x85 || n == 0xa0 || n == 0x1680 || (0x2000 <= n
        <= 0x200a) || n == 0x2028 || n == 0x2029 || n == 0x202f || n == 0x205f || n == 0x3000
}

/// Whether `c` is white space.
pub fn space(c: char) -> (r: bool)
    ensures
        r == is_space(c),
{
    let n: u32 = c as u32;
    (0x09 <= n && n <= 0x0d) || n == 0x20 || n == 0x85 || n == 0xa0 || n == 0x1680 || (0x2000 <= n
        && n <= 0x200a) || n == 0x2028 || n == 0x2029 || n == 0x202f || n == 0x205f || n == 0x3000
}

/// The first position at or after `k` of a character of `s` that is no white
/// space, or the length of `s`.
pub open spec fn lead(s: Seq<char>, k: int) -> int
    decreases s.len() - k,
{
    if k < 0 || k >= s.len() {
        s.len() as int
    } else if !is_space(s[k]) {
        k
    } else {
        lead(s, k + 1)
    }
}

/// The end of `s` once the white space that ends at `k` is left out.
pub open spec fn trail(s: Seq<char>, k: int) -> int
    decreases k,
{
    if k <= 0 || k > s.len() {
        0
    } else if !is_space(s[k - 1]) {
        k
    } else {
        trail(s, k - 1)
    }
}

/// `s` without its leading white space.
pub open spec fn trim_start_of(s: Seq<char>) -> Seq<char> {
    s.subrange(lead(s, 0), s.len() as int)
}

/// `s` without its trailing white space.
pub open spec fn trim_end_of(s: Seq<char>) -> Seq<char> {
    s.subrange(0, trail(s, s.len() as int))
}

/// `s` without the white space at either end.
pub open spec fn trim_of(s: Seq<char>) -> Seq<char> {
    trim_end_of(trim_start_of(s))
}

/// A copy of `s` without its leading white space.
pub fn trim_start(s: &Vec<char>) -> (r: Vec<char>)
    ensures
        r@ == trim_start_of(s@),
{
    let mut k: usize = 0;
    while k < s.len() && space(s[k])
        invariant
            0 <= k <= s@.len(),
            lead(s@, 0) == lead(s@, k as int),
        decreases s@.len() - k,
    {
        k = k + 1;
    }
    slice(s, k, s.len())
}

/// A copy of `s` without its trailing white space.
pub fn trim_end(s: &Vec<char>) -> (r: Vec<char>)
    ensures
        r@ == trim_end_of(s@),
{
    let mut k: usize = s.len();
    while k > 0 && space(s[k - 1])
        invariant
            0 <= k <= s@.len(),
            trail(s@, s@.len() as int) == trail(s@, k as int),
        decreases k,
    {
        k = k - 1;
    }
    slice(s, 0, k)
}

/// A copy of `s` without the white space at either end.
pub fn trim(s: &Vec<char>) -> (r: Vec<char>)
    ensures
        r@ == trim_of(s@),
{
    let t = trim_start(s);
    trim_end(&t)
}

/// The pieces of `s` from position `start` on: the stretches between one
/// occurrence of `c` and the next.
pub open spec fn pieces_from(s: Seq<char>, start: int, c: char) -> Seq<Seq<char>>
    decreases s.len() - start,
{
    if start < 0 || start > s.len() {
        Seq::empty()
    } else {
        let e = find_from(s, start, c);
        if e >= s.len() {
            seq![s.subrange(start, s.len() as int)]
        } else if e < start {
            Seq::empty()
        } else {
            seq![s.subrange(start, e)] + pieces_from(s, e + 1, c)
        }
    }
}

/// The pieces that `c` divides `s` into: one more than `s` holds of `c`.
pub open spec fn pieces_of(s: Seq<char>, c: char) -> Seq<Seq<char>> {
    pieces_from(s, 0, c)
}

/// The lines of `s`: the pieces that line feeds divide it into.
pub open spec fn lines_of(s: Seq<char>) -> Seq<Seq<char>> {
    pieces_of(s, '\n')
}

/// The views of the texts held in `v`.
pub open spec fn texts_view(v: Seq<Vec<char>>) -> Seq<Seq<char>> {
    Seq::new(v.len(), |i: int| v[i]@)
}

/// Cuts `s` at every `c`.
pub fn split_all(s: &Vec<char>, c: char) -> (r: Vec<Vec<char>>)
    ensures
        texts_view(r@) == pieces_of(s@, c),
        r@.len() >= 1,
{
    let mut r: Vec<Vec<char>> = Vec::new();
    let mut start: usize = 0;
    loop
        invariant
            0 <= start <= s@.len(),
            pieces_of(s@, c) == texts_view(r@) + pieces_from(s@, start as int, c),
        decreases s@.len() - start,
    {
        let e = find_char(s, start, c);
        let piece = slice(s, start, e);
        let ghost before = r@;
        r.push(piece);
        if e >= s.len() {
            assert(texts_view(r@) =~= texts_view(before) + seq![
                s@.subrange(start as int, s@.len() as int),
            ]);
            assert(texts_view(r@) =~= pieces_of(s@, c));
            return r;
        }
        proof {
            assert(texts_view(r@) =~= texts_view(before) + seq![
                s@.subrange(start as int, e as int),
            ]);
            assert(texts_view(before) + (seq![s@.subrange(start as int, e as int)] + pieces_from(
                s@,
                e + 1,
                c,
            )) =~= texts_view(r@) + pieces_from(s@, e + 1, c));
        }
        start = e + 1;
    }
}

/// Cuts `s` at every line feed.
pub fn split_lines(s: &Vec<char>) -> (r: Vec<Vec<char>>)
    ensures
        texts_view(r@) == lines_of(s@),
        r@.len() >= 1,
{
    split_all(s, '\n')
}

} // verus!
