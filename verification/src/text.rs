//! Text utilities over character sequences.
//!
//! Every function here works on `Vec<char>` (or a `&str` converted to one) and is
//! specified by a spec function over `Seq<char>` that states the result directly.
use vstd::prelude::*;
use vstd::utf8::{encode_scalar, encode_utf8};

verus! {

/// `String::push` appends one character to the end of the string.
pub assume_specification[ String::push ](s: &mut String, ch: char)
    ensures
        final(s)@ == old(s)@.push(ch),
;

// ---------------------------------------------------------------------------
// Character classes
// ---------------------------------------------------------------------------

/// The Unicode `White_Space` property, as tested by `char::is_whitespace`.
pub open spec fn is_ws(c: char) -> bool {
    ||| ('\u{9}' <= c && c <= '\u{d}')
    ||| c == ' '
    ||| c == '\u{85}'
    ||| c == '\u{a0}'
    ||| c == '\u{1680}'
    ||| ('\u{2000}' <= c && c <= '\u{200a}')
    ||| c == '\u{2028}'
    ||| c == '\u{2029}'
    ||| c == '\u{202f}'
    ||| c == '\u{205f}'
    ||| c == '\u{3000}'
}

/// Executable counterpart of [`is_ws`].
pub fn char_is_ws(c: char) -> (r: bool)
    ensures
        r == is_ws(c),
{
    ('\u{9}' <= c && c <= '\u{d}') || c == ' ' || c == '\u{85}' || c == '\u{a0}' || c
        == '\u{1680}' || ('\u{2000}' <= c && c <= '\u{200a}') || c == '\u{2028}' || c
        == '\u{2029}' || c == '\u{202f}' || c == '\u{205f}' || c == '\u{3000}'
}

/// An ASCII decimal digit.
pub open spec fn is_digit(c: char) -> bool {
    '0' <= c && c <= '9'
}

/// An ASCII hexadecimal digit, either case.
pub open spec fn is_hex(c: char) -> bool {
    ||| ('0' <= c && c <= '9')
    ||| ('a' <= c && c <= 'f')
    ||| ('A' <= c && c <= 'F')
}

/// The value of a hexadecimal digit.
pub open spec fn hex_val(c: char) -> nat {
    if '0' <= c && c <= '9' {
        (c as nat - '0' as nat) as nat
    } else if 'a' <= c && c <= 'f' {
        (c as nat - 'a' as nat + 10) as nat
    } else {
        (c as nat - 'A' as nat + 10) as nat
    }
}

/// ASCII lower-casing of one character (`char::to_ascii_lowercase`).
pub open spec fn lower_char(c: char) -> char {
    if 'A' <= c && c <= 'Z' {
        (((c as u32) + 32) as u8) as char
    } else {
        c
    }
}

/// ASCII lower-casing of a sequence (`str::to_ascii_lowercase`).
pub open spec fn ascii_lower(s: Seq<char>) -> Seq<char> {
    s.map_values(|c: char| lower_char(c))
}

// ---------------------------------------------------------------------------
// Prefixes and sub-strings
// ---------------------------------------------------------------------------

/// `p` is a prefix of `s`.
pub open spec fn starts_with(s: Seq<char>, p: Seq<char>) -> bool {
    p.len() <= s.len() && s.take(p.len() as int) == p
}

/// `p` occurs in `s` at position `i`.
pub open spec fn occurs_at(s: Seq<char>, p: Seq<char>, i: int) -> bool {
    0 <= i && i + p.len() <= s.len() && s.subrange(i, i + p.len()) == p
}

/// `p` occurs somewhere in `s`.
pub open spec fn contains(s: Seq<char>, p: Seq<char>) -> bool {
    exists|i: int| #[trigger] occurs_at(s, p, i)
}

/// `p` is a suffix of `s`.
pub open spec fn ends_with(s: Seq<char>, p: Seq<char>) -> bool {
    p.len() <= s.len() && s.subrange(s.len() - p.len(), s.len() as int) == p
}

/// A text as long as `p` contains `p` exactly when it is `p`.
pub proof fn lemma_contains_same_len(s: Seq<char>, p: Seq<char>)
    requires
        s.len() == p.len(),
    ensures
        contains(s, p) == (s == p),
{
    if contains(s, p) {
        let i = choose|i: int| occurs_at(s, p, i);
        assert(s.subrange(i, i + p.len()) == p);
        assert(s.subrange(0, s.len() as int) =~= s);
    }
    if s == p {
        assert(s.subrange(0, p.len() as int) =~= s);
        assert(occurs_at(s, p, 0));
    }
}

/// `s` has `p` at position `i`: executable test.
fn matches_at(s: &Vec<char>, p: &Vec<char>, i: usize) -> (r: bool)
    requires
        i <= s.len(),
    ensures
        r == occurs_at(s@, p@, i as int),
{
    if p.len() > s.len() - i {
        return false;
    }
    let mut k: usize = 0;
    while k < p.len()
        invariant
            i + p.len() <= s.len(),
            k <= p.len(),
            forall|j: int| 0 <= j < k ==> s@[i + j] == p@[j],
        decreases p.len() - k,
    {
        if s[i + k] != p[k] {
            assert(s@.subrange(i as int, i + p.len())[k as int] != p@[k as int]);
            return false;
        }
        k = k + 1;
    }
    assert(s@.subrange(i as int, i + p.len()) =~= p@);
    true
}

/// Executable [`contains`].
pub fn contains_seq(s: &Vec<char>, p: &Vec<char>) -> (r: bool)
    ensures
        r == contains(s@, p@),
{
    if p.len() > s.len() {
        assert(forall|i: int| !#[trigger] occurs_at(s@, p@, i));
        return false;
    }
    let last = s.len() - p.len();
    let mut i: usize = 0;
    while i < last
        invariant
            last == s.len() - p.len(),
            i <= last,
            forall|j: int| 0 <= j < i ==> !#[trigger] occurs_at(s@, p@, j),
        decreases last - i,
    {
        if matches_at(s, p, i) {
            return true;
        }
        i = i + 1;
    }
    if matches_at(s, p, last) {
        return true;
    }
    assert forall|j: int| !#[trigger] occurs_at(s@, p@, j) by {
        if 0 <= j && j + p.len() <= s.len() {
            assert(j <= last);
        }
    }
    false
}

/// Whether `s` contains the literal `pat`.
pub fn contains_str(s: &Vec<char>, pat: &str) -> (r: bool)
    ensures
        r == contains(s@, pat@),
{
    let p = chars_of(pat);
    contains_seq(s, &p)
}

/// Whether `s` begins with `p`.
pub fn starts_with_seq(s: &Vec<char>, p: &Vec<char>) -> (r: bool)
    ensures
        r == starts_with(s@, p@),
{
    let r = matches_at(s, p, 0);
    proof {
        if p@.len() <= s@.len() {
            assert(s@.subrange(0, p@.len() as int) =~= s@.take(p@.len() as int));
        }
    }
    r
}

/// Whether `s` begins with the literal `pat`.
pub fn starts_with_str(s: &Vec<char>, pat: &str) -> (r: bool)
    ensures
        r == starts_with(s@, pat@),
{
    let p = chars_of(pat);
    starts_with_seq(s, &p)
}

/// Whether `s` ends with the literal `pat`.
pub fn ends_with_str(s: &Vec<char>, pat: &str) -> (r: bool)
    ensures
        r == ends_with(s@, pat@),
{
    let p = chars_of(pat);
    if p.len() > s.len() {
        return false;
    }
    matches_at(s, &p, s.len() - p.len())
}

/// The UTF-8 encoding of `a + b` is the encoding of `a` followed by that of `b`.
pub proof fn lemma_encode_utf8_append(a: Seq<char>, b: Seq<char>)
    ensures
        encode_utf8(a + b) == encode_utf8(a) + encode_utf8(b),
    decreases a.len(),
{
    if a.len() == 0 {
        assert(a + b =~= b);
        assert(encode_utf8(a) + encode_utf8(b) =~= encode_utf8(b));
    } else {
        assert((a + b).drop_first() =~= a.drop_first() + b);
        assert((a + b)[0] == a[0]);
        lemma_encode_utf8_append(a.drop_first(), b);
        assert(encode_utf8(a + b) =~= encode_utf8(a) + encode_utf8(b));
    }
}

/// Whether the UTF-8 encoding of `s` (what `str::len` counts) is longer than `n` bytes.
pub fn utf8_longer_than(s: &Vec<char>, n: usize) -> (r: bool)
    requires
        n <= usize::MAX - 4,
    ensures
        r == (encode_utf8(s@).len() > n),
{
    let mut total: usize = 0;
    let mut i: usize = 0;
    while i < s.len()
        invariant
            i <= s.len(),
            total == encode_utf8(s@.take(i as int)).len(),
            total <= n,
            n <= usize::MAX - 4,
        decreases s.len() - i,
    {
        let c = s[i];
        let u = c as u32;
        let w: usize = if u < 0x80 {
            1
        } else if u < 0x800 {
            2
        } else if u < 0x10000 {
            3
        } else {
            4
        };
        proof {
            vstd::utf8::char_is_scalar(c);
            assert(s@.take(i + 1) =~= s@.take(i as int) + seq![c]);
            lemma_encode_utf8_append(s@.take(i as int), seq![c]);
            assert(seq![c].drop_first() =~= Seq::<char>::empty());
            assert(encode_utf8(seq![c]) =~= encode_scalar(u) + encode_utf8(Seq::<char>::empty()));
            assert(encode_scalar(u).len() == w);
        }
        total = total + w;
        i = i + 1;
        if total > n {
            proof {
                assert(s@ =~= s@.take(i as int) + s@.skip(i as int));
                lemma_encode_utf8_append(s@.take(i as int), s@.skip(i as int));
            }
            return true;
        }
    }
    assert(s@.take(i as int) =~= s@);
    false
}

/// Whether `s` equals `t`.
pub fn eq_seq(s: &Vec<char>, t: &Vec<char>) -> (r: bool)
    ensures
        r == (s@ == t@),
{
    if s.len() != t.len() {
        return false;
    }
    let r = starts_with_seq(s, t);
    proof {
        if r {
            assert(s@ =~= s@.take(t@.len() as int));
        } else {
            assert(s@.take(t@.len() as int) =~= s@);
        }
    }
    r
}

/// Whether `s` equals the literal `pat`.
pub fn eq_str(s: &Vec<char>, pat: &str) -> (r: bool)
    ensures
        r == (s@ == pat@),
{
    let p = chars_of(pat);
    eq_seq(s, &p)
}

// ---------------------------------------------------------------------------
// Conversions
// ---------------------------------------------------------------------------

/// Collects the characters of a string slice.
pub fn chars_of(s: &str) -> (res: Vec<char>)
    ensures
        res@ == s@,
{
    let mut res: Vec<char> = Vec::new();
    for c in it: s.chars()
        invariant
            res@ == it.seq().take(it.index() as int),
            it.seq() == s@,
    {
        res.push(c);
    }
    res
}

/// Builds a `String` from characters.
pub fn string_of(v: &Vec<char>) -> (res: String)
    ensures
        res@ == v@,
{
    let mut res = String::new();
    let mut i: usize = 0;
    while i < v.len()
        invariant
            i <= v.len(),
            res@ == v@.take(i as int),
        decreases v.len() - i,
    {
        res.push(v[i]);
        i = i + 1;
        assert(res@ =~= v@.take(i as int));
    }
    assert(v@.take(v.len() as int) =~= v@);
    res
}

/// Appends the characters of `s` to `out`.
pub fn push_all(out: &mut Vec<char>, s: &Vec<char>)
    ensures
        final(out)@ == old(out)@ + s@,
{
    let ghost start = out@;
    let mut i: usize = 0;
    while i < s.len()
        invariant
            i <= s.len(),
            out@ == start + s@.take(i as int),
        decreases s.len() - i,
    {
        out.push(s[i]);
        i = i + 1;
        assert(out@ =~= start + s@.take(i as int));
    }
    assert(s@.take(s.len() as int) =~= s@);
}

/// Appends the characters of the literal `s` to `out`.
pub fn push_str(out: &mut Vec<char>, s: &str)
    ensures
        final(out)@ == old(out)@ + s@,
{
    let v = chars_of(s);
    push_all(out, &v);
}

/// The sub-sequence `s[from..to]` as a new vector.
pub fn slice_of(s: &Vec<char>, from: usize, to: usize) -> (res: Vec<char>)
    requires
        from <= to <= s.len(),
    ensures
        res@ == s@.subrange(from as int, to as int),
{
    let mut res: Vec<char> = Vec::new();
    let mut i: usize = from;
    while i < to
        invariant
            from <= i <= to <= s.len(),
            res@ == s@.subrange(from as int, i as int),
        decreases to - i,
    {
        res.push(s[i]);
        i = i + 1;
        assert(res@ =~= s@.subrange(from as int, i as int));
    }
    res
}

// ---------------------------------------------------------------------------
// Trimming
// ---------------------------------------------------------------------------

/// The characters removed by trimming: white space, or the NUL character.
pub open spec fn trimmable(nul: bool, c: char) -> bool {
    if nul {
        c == '\0'
    } else {
        is_ws(c)
    }
}

/// `s` with its leading trimmable characters removed.
pub open spec fn trim_start_of(s: Seq<char>, nul: bool) -> Seq<char>
    decreases s.len(),
{
    if s.len() > 0 && trimmable(nul, s[0]) {
        trim_start_of(s.drop_first(), nul)
    } else {
        s
    }
}

/// `s` with its trailing trimmable characters removed.
pub open spec fn trim_end_of(s: Seq<char>, nul: bool) -> Seq<char>
    decreases s.len(),
{
    if s.len() > 0 && trimmable(nul, s.last()) {
        trim_end_of(s.drop_last(), nul)
    } else {
        s
    }
}

/// `str::trim`: leading and trailing white space removed.
pub open spec fn trim(s: Seq<char>) -> Seq<char> {
    trim_end_of(trim_start_of(s, false), false)
}

/// `str::trim_matches('\0')`: leading and trailing NUL characters removed.
pub open spec fn trim_nul(s: Seq<char>) -> Seq<char> {
    trim_end_of(trim_start_of(s, true), true)
}

fn char_trimmable(nul: bool, c: char) -> (r: bool)
    ensures
        r == trimmable(nul, c),
{
    if nul {
        c == '\0'
    } else {
        char_is_ws(c)
    }
}

/// Executable trimming of both ends.
pub fn trim_both(s: &Vec<char>, nul: bool) -> (res: Vec<char>)
    ensures
        res@ == trim_end_of(trim_start_of(s@, nul), nul),
{
    let n = s.len();
    let mut i: usize = 0;
    assert(s@.subrange(0, n as int) =~= s@);
    while i < n && char_trimmable(nul, s[i])
        invariant
            n == s.len(),
            i <= n,
            trim_start_of(s@, nul) == trim_start_of(s@.subrange(i as int, n as int), nul),
        decreases n - i,
    {
        assert(s@.subrange(i as int, n as int).drop_first() =~= s@.subrange(i + 1, n as int));
        i = i + 1;
    }
    let mut j: usize = n;
    while j > i && char_trimmable(nul, s[j - 1])
        invariant
            n == s.len(),
            i <= j <= n,
            trim_start_of(s@, nul) == s@.subrange(i as int, n as int),
            trim_end_of(s@.subrange(i as int, n as int), nul) == trim_end_of(
                s@.subrange(i as int, j as int),
                nul,
            ),
        decreases j - i,
    {
        assert(s@.subrange(i as int, j as int).drop_last() =~= s@.subrange(i as int, j - 1));
        j = j - 1;
    }
    slice_of(s, i, j)
}

/// `str::trim` on characters.
pub fn trim_ws(s: &Vec<char>) -> (res: Vec<char>)
    ensures
        res@ == trim(s@),
{
    trim_both(s, false)
}

// ---------------------------------------------------------------------------
// Searching and splitting
// ---------------------------------------------------------------------------

/// Index of the first occurrence of `c` in `s`.
pub open spec fn index_of(s: Seq<char>, c: char) -> Option<int>
    decreases s.len(),
{
    if s.len() == 0 {
        None
    } else if s[0] == c {
        Some(0)
    } else {
        match index_of(s.drop_first(), c) {
            Some(i) => Some(i + 1),
            None => None,
        }
    }
}

/// Index of the last occurrence of `c` in `s`.
pub open spec fn last_index_of(s: Seq<char>, c: char) -> Option<int>
    decreases s.len(),
{
    if s.len() == 0 {
        None
    } else if s.last() == c {
        Some(s.len() - 1)
    } else {
        last_index_of(s.drop_last(), c)
    }
}

/// Where `index_of` finds a character, and what lies before it.
pub proof fn lemma_index_of(s: Seq<char>, c: char)
    ensures
        index_of(s, c) matches Some(i) ==> 0 <= i < s.len() && s[i] == c && forall|j: int|
            0 <= j < i ==> s[j] != c,
        index_of(s, c) is None ==> forall|j: int| 0 <= j < s.len() ==> s[j] != c,
    decreases s.len(),
{
    if s.len() > 0 && s[0] != c {
        lemma_index_of(s.drop_first(), c);
        assert forall|j: int| 1 <= j < s.len() implies s[j] == s.drop_first()[j - 1] by {}
    }
}

/// Where `last_index_of` finds a character, and what lies after it.
pub proof fn lemma_last_index_of(s: Seq<char>, c: char)
    ensures
        last_index_of(s, c) matches Some(i) ==> 0 <= i < s.len() && s[i] == c && forall|j: int|
            i < j < s.len() ==> s[j] != c,
        last_index_of(s, c) is None ==> forall|j: int| 0 <= j < s.len() ==> s[j] != c,
    decreases s.len(),
{
    if s.len() > 0 && s.last() != c {
        lemma_last_index_of(s.drop_last(), c);
        assert forall|j: int| 0 <= j < s.len() - 1 implies s[j] == s.drop_last()[j] by {}
    }
}

/// Searching through a prefix free of `c` shifts the result by the prefix length.
pub proof fn lemma_index_of_append(a: Seq<char>, b: Seq<char>, c: char)
    requires
        forall|j: int| 0 <= j < a.len() ==> a[j] != c,
    ensures
        index_of(a + b, c) == (match index_of(b, c) {
            Some(i) => Some(i + a.len()),
            None => None,
        }),
    decreases a.len(),
{
    if a.len() == 0 {
        assert(a + b =~= b);
    } else {
        assert((a + b).drop_first() =~= a.drop_first() + b);
        lemma_index_of_append(a.drop_first(), b, c);
    }
}

/// Executable [`index_of`].
pub fn find_char(s: &Vec<char>, c: char) -> (r: Option<usize>)
    ensures
        r matches Some(i) ==> index_of(s@, c) == Some(i as int),
        r is None ==> index_of(s@, c) is None,
{
    let mut i: usize = 0;
    while i < s.len()
        invariant
            i <= s.len(),
            forall|j: int| 0 <= j < i ==> s@[j] != c,
        decreases s.len() - i,
    {
        if s[i] == c {
            proof {
                lemma_index_of_append(s@.take(i as int), s@.skip(i as int), c);
                assert(s@.take(i as int) + s@.skip(i as int) =~= s@);
            }
            return Some(i);
        }
        i = i + 1;
    }
    proof {
        lemma_index_of(s@, c);
        if index_of(s@, c) is Some {
            let k = index_of(s@, c)->0;
            assert(s@[k] != c);
        }
    }
    None
}

/// Executable [`last_index_of`].
pub fn rfind_char(s: &Vec<char>, c: char) -> (r: Option<usize>)
    ensures
        r matches Some(i) ==> last_index_of(s@, c) == Some(i as int),
        r is None ==> last_index_of(s@, c) is None,
{
    let mut j: usize = s.len();
    assert(s@.take(j as int) =~= s@);
    while j > 0
        invariant
            j <= s.len(),
            last_index_of(s@, c) == last_index_of(s@.take(j as int), c),
        decreases j,
    {
        if s[j - 1] == c {
            return Some(j - 1);
        }
        assert(s@.take(j as int).drop_last() =~= s@.take(j - 1));
        j = j - 1;
    }
    None
}

/// `str::split_once(c)`: the parts before and after the first `c`.
pub open spec fn split_once(s: Seq<char>, c: char) -> Option<(Seq<char>, Seq<char>)> {
    match index_of(s, c) {
        Some(i) => Some((s.take(i), s.skip(i + 1))),
        None => None,
    }
}

/// Executable [`split_once`].
pub fn split_once_char(s: &Vec<char>, c: char) -> (r: Option<(Vec<char>, Vec<char>)>)
    ensures
        r matches Some(p) ==> split_once(s@, c) == Some((p.0@, p.1@)),
        r is None ==> split_once(s@, c) is None,
{
    match find_char(s, c) {
        Some(i) => {
            proof {
                lemma_index_of(s@, c);
            }
            assert(i < s.len());
            let a = slice_of(s, 0, i);
            let b = slice_of(s, i + 1, s.len());
            assert(a@ =~= s@.take(i as int));
            assert(b@ =~= s@.skip(i + 1));
            Some((a, b))
        },
        None => None,
    }
}

/// `str::strip_prefix`.
pub open spec fn strip_prefix(s: Seq<char>, p: Seq<char>) -> Option<Seq<char>> {
    if starts_with(s, p) {
        Some(s.skip(p.len() as int))
    } else {
        None
    }
}

/// Executable [`strip_prefix`] for a literal prefix.
pub fn strip_prefix_str(s: &Vec<char>, pat: &str) -> (r: Option<Vec<char>>)
    ensures
        r matches Some(t) ==> strip_prefix(s@, pat@) == Some(t@),
        r is None ==> strip_prefix(s@, pat@) is None,
{
    let p = chars_of(pat);
    if starts_with_seq(s, &p) {
        let t = slice_of(s, p.len(), s.len());
        assert(t@ =~= s@.skip(p@.len() as int));
        Some(t)
    } else {
        None
    }
}

/// The character sequences held by a vector of character vectors.
pub open spec fn views(v: Seq<Vec<char>>) -> Seq<Seq<char>> {
    v.map_values(|x: Vec<char>| x@)
}

// ---------------------------------------------------------------------------
// Lines
// ---------------------------------------------------------------------------

/// A line with its trailing carriage return, if any, removed.
pub open spec fn strip_cr(s: Seq<char>) -> Seq<char> {
    if s.len() > 0 && s.last() == '\r' {
        s.drop_last()
    } else {
        s
    }
}

/// `str::lines`: the text split at `\n`, each line without a trailing `\r`; a final
/// line terminator does not start another line.
pub open spec fn lines(s: Seq<char>) -> Seq<Seq<char>>
    decreases s.len(),
{
    if s.len() == 0 {
        seq![]
    } else {
        match index_of(s, '\n') {
            Some(i) => {
                proof {
                    lemma_index_of(s, '\n');
                }
                seq![strip_cr(s.take(i))] + lines(s.skip(i + 1))
            },
            None => seq![s],
        }
    }
}

/// Executable [`lines`].
pub fn split_lines(s: &Vec<char>) -> (res: Vec<Vec<char>>)
    ensures
        views(res@) == lines(s@),
{
    let mut out: Vec<Vec<char>> = Vec::new();
    let mut cur: Vec<char> = Vec::new();
    let mut k: usize = 0;
    assert(views(out@) + lines(s@) =~= lines(s@));
    assert(cur@ + s@.skip(0) =~= s@);
    while k < s.len()
        invariant
            k <= s.len(),
            forall|j: int| 0 <= j < cur@.len() ==> cur@[j] != '\n',
            lines(s@) == views(out@) + lines(cur@ + s@.skip(k as int)),
        decreases s.len() - k,
    {
        let c = s[k];
        if c == '\n' {
            proof {
                let t = s@.skip(k as int);
                lemma_index_of_append(cur@, t, '\n');
                assert(index_of(t, '\n') == Some(0int));
                assert((cur@ + t).take(cur@.len() as int) =~= cur@);
                assert((cur@ + t).skip(cur@.len() + 1int) =~= s@.skip(k + 1));
                assert(Seq::<char>::empty() + s@.skip(k + 1) =~= s@.skip(k + 1));
            }
            let ghost before = views(out@);
            let mut line = cur;
            if line.len() > 0 && line[line.len() - 1] == '\r' {
                line.pop();
                assert(line@ =~= strip_cr(cur@));
            }
            out.push(line);
            cur = Vec::new();
            assert(views(out@) =~= before + seq![line@]);
        } else {
            assert(cur@.push(c) + s@.skip(k + 1) =~= cur@ + s@.skip(k as int));
            cur.push(c);
        }
        k = k + 1;
    }
    proof {
        assert(cur@ + s@.skip(k as int) =~= cur@);
        lemma_index_of_append(cur@, Seq::<char>::empty(), '\n');
        assert(cur@ + Seq::<char>::empty() =~= cur@);
    }
    if cur.len() > 0 {
        let ghost before = views(out@);
        out.push(cur);
        assert(views(out@) =~= before + lines(cur@));
    } else {
        assert(views(out@) + lines(cur@) =~= views(out@));
    }
    out
}

// ---------------------------------------------------------------------------
// White-space separated words
// ---------------------------------------------------------------------------

/// The longest prefix of `s` free of white space.
pub open spec fn word(s: Seq<char>) -> Seq<char>
    decreases s.len(),
{
    if s.len() == 0 || is_ws(s[0]) {
        seq![]
    } else {
        seq![s[0]] + word(s.drop_first())
    }
}

/// A word is a prefix of the text.
pub proof fn lemma_word(s: Seq<char>)
    ensures
        word(s).len() <= s.len(),
        word(s) == s.take(word(s).len() as int),
        s.len() > 0 && !is_ws(s[0]) ==> word(s).len() >= 1,
    decreases s.len(),
{
    if s.len() > 0 && !is_ws(s[0]) {
        lemma_word(s.drop_first());
        assert(word(s) =~= s.take(word(s).len() as int));
    }
}

/// `str::split_whitespace`: the maximal runs of non-white-space characters.
pub open spec fn tokens(s: Seq<char>) -> Seq<Seq<char>>
    decreases s.len(),
{
    if s.len() == 0 {
        seq![]
    } else if is_ws(s[0]) {
        tokens(s.drop_first())
    } else {
        proof {
            lemma_word(s);
        }
        seq![word(s)] + tokens(s.skip(word(s).len() as int))
    }
}

/// A run free of white space, followed by white space or nothing, is the first word.
proof fn lemma_word_prefix(a: Seq<char>, b: Seq<char>)
    requires
        forall|j: int| 0 <= j < a.len() ==> !is_ws(a[j]),
        b.len() == 0 || is_ws(b[0]),
    ensures
        word(a + b) == a,
    decreases a.len(),
{
    if a.len() == 0 {
        assert(a + b =~= b);
    } else {
        assert((a + b).drop_first() =~= a.drop_first() + b);
        lemma_word_prefix(a.drop_first(), b);
        assert(a =~= seq![a[0]] + a.drop_first());
    }
}

/// Executable [`tokens`].
pub fn split_ws(s: &Vec<char>) -> (res: Vec<Vec<char>>)
    ensures
        views(res@) == tokens(s@),
{
    let mut out: Vec<Vec<char>> = Vec::new();
    let mut cur: Vec<char> = Vec::new();
    let mut k: usize = 0;
    assert(views(out@) + tokens(s@) =~= tokens(s@));
    assert(cur@ + s@.skip(0) =~= s@);
    while k < s.len()
        invariant
            k <= s.len(),
            forall|j: int| 0 <= j < cur@.len() ==> !is_ws(cur@[j]),
            tokens(s@) == views(out@) + tokens(cur@ + s@.skip(k as int)),
        decreases s.len() - k,
    {
        let c = s[k];
        if char_is_ws(c) {
            let ghost t = s@.skip(k as int);
            let ghost rest = s@.skip(k + 1);
            proof {
                assert(t.drop_first() =~= rest);
                assert(tokens(t) == tokens(rest));
            }
            if cur.len() > 0 {
                proof {
                    lemma_word_prefix(cur@, t);
                    assert((cur@ + t)[0] == cur@[0]);
                    assert((cur@ + t).skip(cur@.len() as int) =~= t);
                    assert(tokens(cur@ + t) == seq![cur@] + tokens(rest));
                }
                let ghost before = views(out@);
                let ghost cv = cur@;
                out.push(cur);
                cur = Vec::new();
                assert(views(out@) =~= before.push(cv));
                assert(before + (seq![cv] + tokens(rest)) =~= before.push(cv) + tokens(rest));
                assert(cur@ + rest =~= rest);
            } else {
                assert(cur@ + t =~= t);
                assert(cur@ + rest =~= rest);
            }
        } else {
            assert(cur@.push(c) + s@.skip(k + 1) =~= cur@ + s@.skip(k as int));
            cur.push(c);
        }
        k = k + 1;
    }
    proof {
        assert(cur@ + s@.skip(k as int) =~= cur@);
        if cur@.len() > 0 {
            lemma_word_prefix(cur@, Seq::<char>::empty());
            assert(cur@ + Seq::<char>::empty() =~= cur@);
            assert(cur@.skip(cur@.len() as int) =~= Seq::<char>::empty());
        }
    }
    if cur.len() > 0 {
        let ghost before = views(out@);
        let ghost cv = cur@;
        proof {
            assert(cv[0] == cur@[0]);
            assert(tokens(cv) == seq![cv] + tokens(Seq::<char>::empty()));
        }
        out.push(cur);
        assert(views(out@) =~= before.push(cv));
        assert(views(out@) =~= before + tokens(cv));
    } else {
        assert(views(out@) + tokens(cur@) =~= views(out@));
    }
    out
}

// ---------------------------------------------------------------------------
// Case
// ---------------------------------------------------------------------------

/// The result of `str::to_lowercase` (full Unicode lower-casing) on a text.
pub uninterp spec fn lowercase(s: Seq<char>) -> Seq<char>;

/// `str::to_lowercase`: Unicode lower-casing, as std implements it. Nothing is claimed of
/// the result beyond its being the function [`lowercase`] of the input.
#[verifier::external_body]
pub(crate) fn to_lowercase(s: &str) -> (r: String)
    ensures
        r@ == lowercase(s@),
{
    s.to_lowercase()
}

/// [`lowercase`] on characters.
pub fn lowercase_chars(s: &Vec<char>) -> (r: Vec<char>)
    ensures
        r@ == lowercase(s@),
{
    let st = string_of(s);
    let low = to_lowercase(st.as_str());
    chars_of(low.as_str())
}

/// Executable [`lower_char`].
pub fn lower_ascii_char(c: char) -> (r: char)
    ensures
        r == lower_char(c),
{
    if 'A' <= c && c <= 'Z' {
        (((c as u32) + 32) as u8) as char
    } else {
        c
    }
}

/// Executable [`ascii_lower`].
pub fn to_ascii_lower(s: &Vec<char>) -> (r: Vec<char>)
    ensures
        r@ == ascii_lower(s@),
{
    let mut r: Vec<char> = Vec::new();
    let mut i: usize = 0;
    while i < s.len()
        invariant
            i <= s.len(),
            r@ == ascii_lower(s@.take(i as int)),
        decreases s.len() - i,
    {
        r.push(lower_ascii_char(s[i]));
        i = i + 1;
        assert(r@ =~= ascii_lower(s@.take(i as int)));
    }
    assert(s@.take(s.len() as int) =~= s@);
    r
}

/// `str::eq_ignore_ascii_case`.
pub open spec fn eq_ignore_case(a: Seq<char>, b: Seq<char>) -> bool {
    ascii_lower(a) == ascii_lower(b)
}

/// Executable [`eq_ignore_case`] against a literal.
pub fn eq_ignore_case_str(a: &Vec<char>, pat: &str) -> (r: bool)
    ensures
        r == eq_ignore_case(a@, pat@),
{
    let la = to_ascii_lower(a);
    let b = chars_of(pat);
    let lb = to_ascii_lower(&b);
    eq_seq(&la, &lb)
}

// ---------------------------------------------------------------------------
// Replacement
// ---------------------------------------------------------------------------

/// `str::replace(p, "")`: every non-overlapping occurrence of `p`, from the left, removed.
pub open spec fn remove_all(s: Seq<char>, p: Seq<char>) -> Seq<char>
    decreases s.len(),
{
    if p.len() == 0 || s.len() < p.len() {
        s
    } else if s.take(p.len() as int) == p {
        remove_all(s.skip(p.len() as int), p)
    } else {
        seq![s[0]] + remove_all(s.drop_first(), p)
    }
}

/// Executable [`remove_all`] for a literal pattern.
pub fn remove_all_str(s: &Vec<char>, pat: &str) -> (r: Vec<char>)
    ensures
        r@ == remove_all(s@, pat@),
{
    let p = chars_of(pat);
    let n = s.len();
    let mut out: Vec<char> = Vec::new();
    if p.len() == 0 {
        return slice_of(s, 0, n);
    }
    let mut i: usize = 0;
    assert(s@.skip(0) =~= s@);
    while i < n
        invariant
            n == s.len(),
            p@ == pat@,
            p.len() > 0,
            i <= n,
            remove_all(s@, p@) == out@ + remove_all(s@.skip(i as int), p@),
        decreases n - i,
    {
        let ghost t = s@.skip(i as int);
        if p.len() > n - i {
            let rest = slice_of(s, i, n);
            assert(rest@ =~= t);
            push_all(&mut out, &rest);
            i = n;
            assert(s@.skip(n as int) =~= Seq::<char>::empty());
        } else if matches_at(s, &p, i) {
            assert(t.take(p.len() as int) =~= s@.subrange(i as int, i + p.len()));
            assert(t.skip(p.len() as int) =~= s@.skip(i + p.len()));
            i = i + p.len();
        } else {
            assert(t.take(p.len() as int) =~= s@.subrange(i as int, i + p.len()));
            assert(t.drop_first() =~= s@.skip(i + 1));
            let ghost before = out@;
            out.push(s[i]);
            assert(before + (seq![s@[i as int]] + remove_all(s@.skip(i + 1), p@)) =~= out@
                + remove_all(s@.skip(i + 1), p@));
            i = i + 1;
        }
    }
    assert(remove_all(s@.skip(n as int), p@) =~= Seq::<char>::empty());
    assert(out@ + Seq::<char>::empty() =~= out@);
    out
}

// ---------------------------------------------------------------------------
// Numbers
// ---------------------------------------------------------------------------

/// A digit of the given radix: decimal, or hexadecimal when `hex`.
pub open spec fn is_radix_digit(c: char, hex: bool) -> bool {
    if hex {
        is_hex(c)
    } else {
        is_digit(c)
    }
}

/// The value of a digit string in the given radix.
pub open spec fn radix_val(s: Seq<char>, hex: bool) -> nat
    decreases s.len(),
{
    if s.len() == 0 {
        0
    } else {
        let x = radix_val(s.drop_last(), hex);
        (if hex {
            x * 16
        } else {
            x * 10
        }) + hex_val(s.last())
    }
}

/// The digits of an unsigned number: the text without one leading `+`.
pub open spec fn unsigned_body(s: Seq<char>) -> Seq<char> {
    if s.len() > 0 && s[0] == '+' {
        s.drop_first()
    } else {
        s
    }
}

/// The number that `from_str_radix` reads for an unsigned type of unbounded width: an
/// optional `+` followed by at least one digit, and nothing else.
pub open spec fn parse_radix(s: Seq<char>, hex: bool) -> Option<nat> {
    let d = unsigned_body(s);
    if d.len() > 0 && forall|i: int| 0 <= i < d.len() ==> is_radix_digit(#[trigger] d[i], hex) {
        Some(radix_val(d, hex))
    } else {
        None
    }
}

/// The number read for an unsigned type whose largest value is `max`.
pub open spec fn parse_bounded(s: Seq<char>, hex: bool, max: nat) -> Option<nat> {
    match parse_radix(s, hex) {
        Some(v) => if v <= max {
            Some(v)
        } else {
            None
        },
        None => None,
    }
}

/// A prefix of a digit string is worth no more than the whole.
proof fn lemma_radix_val_prefix(d: Seq<char>, j: int, hex: bool)
    requires
        0 <= j <= d.len(),
    ensures
        radix_val(d.take(j), hex) <= radix_val(d, hex),
    decreases d.len(),
{
    if j < d.len() {
        lemma_radix_val_prefix(d.drop_last(), j, hex);
        assert(d.drop_last().take(j) =~= d.take(j));
    } else {
        assert(d.take(j) =~= d);
    }
}

fn hex_digit_value(c: char) -> (r: u64)
    requires
        is_hex(c),
    ensures
        r == hex_val(c),
{
    if '0' <= c && c <= '9' {
        (c as u32 - '0' as u32) as u64
    } else if 'a' <= c && c <= 'f' {
        (c as u32 - 'a' as u32 + 10) as u64
    } else {
        (c as u32 - 'A' as u32 + 10) as u64
    }
}

/// Reads an unsigned number (decimal, or hexadecimal when `hex`) no larger than `max`,
/// as `str::parse` and `from_str_radix` do for unsigned integer types.
pub fn parse_unsigned(s: &Vec<char>, hex: bool, max: u64) -> (r: Option<u64>)
    ensures
        r matches Some(v) ==> parse_bounded(s@, hex, max as nat) == Some(v as nat),
        r is None ==> parse_bounded(s@, hex, max as nat) is None,
{
    let n = s.len();
    let st: usize = if n > 0 && s[0] == '+' {
        1
    } else {
        0
    };
    let ghost d = unsigned_body(s@);
    assert(d =~= s@.skip(st as int));
    if st >= n {
        return None;
    }
    let mut v: u64 = 0;
    let mut i: usize = st;
    assert(d.take(0) =~= Seq::<char>::empty());
    while i < n
        invariant
            n == s.len(),
            st <= i <= n,
            d == s@.skip(st as int),
            d == unsigned_body(s@),
            v <= max,
            v == radix_val(d.take(i - st), hex),
            forall|j: int| 0 <= j < i - st ==> is_radix_digit(#[trigger] d[j], hex),
        decreases n - i,
    {
        let c = s[i];
        let ok = if hex {
            ('0' <= c && c <= '9') || ('a' <= c && c <= 'f') || ('A' <= c && c <= 'F')
        } else {
            '0' <= c && c <= '9'
        };
        if !ok {
            assert(d[i - st] == c);
            assert(!is_radix_digit(d[i - st], hex));
            return None;
        }
        let x = hex_digit_value(c);
        let base: u64 = if hex {
            16
        } else {
            10
        };
        proof {
            assert(d.take(i - st + 1).drop_last() =~= d.take(i - st));
            assert(d.take(i - st + 1).last() == c);
        }
        let next = match v.checked_mul(base) {
            Some(m) => m.checked_add(x),
            None => None,
        };
        match next {
            Some(w) if w <= max => {
                v = w;
                i = i + 1;
            },
            _ => {
                proof {
                    lemma_radix_val_prefix(d, i - st + 1, hex);
                    let val = radix_val(d.take(i - st + 1), hex);
                    assert(val == (if hex {
                        v * 16
                    } else {
                        v * 10
                    }) + x);
                    assert(val > max);
                }
                return None;
            },
        }
    }
    assert(d.take(n - st) =~= d);
    Some(v)
}

/// The digit character for a value below ten.
pub open spec fn digit_char(d: nat) -> char {
    ((d + 48) as u8) as char
}

/// The decimal rendering of a natural number, as `Display` prints it.
pub open spec fn dec_str(n: nat) -> Seq<char>
    decreases n,
{
    if n < 10 {
        seq![digit_char(n)]
    } else {
        dec_str(n / 10).push(digit_char(n % 10))
    }
}

/// Renders `n` in decimal.
pub fn dec_chars(n: u64) -> (r: Vec<char>)
    ensures
        r@ == dec_str(n as nat),
    decreases n,
{
    if n < 10 {
        let mut v: Vec<char> = Vec::new();
        v.push(((n as u8) + 48) as char);
        assert(v@ =~= seq![digit_char(n as nat)]);
        v
    } else {
        let mut v = dec_chars(n / 10);
        v.push((((n % 10) as u8) + 48) as char);
        v
    }
}

/// A decimal rendering has at least one digit.
pub proof fn lemma_dec_str_len(n: nat)
    ensures
        dec_str(n).len() >= 1,
    decreases n,
{
    if n >= 10 {
        lemma_dec_str_len(n / 10);
    }
}

/// Distinct numbers have distinct decimal renderings.
pub proof fn lemma_dec_str_injective(a: nat, b: nat)
    requires
        dec_str(a) == dec_str(b),
    ensures
        a == b,
    decreases a,
{
    if a < 10 && b < 10 {
        assert(dec_str(a)[0] == digit_char(a));
        assert(dec_str(b)[0] == digit_char(b));
        assert(((a + 48) as u8) as char == ((b + 48) as u8) as char);
        assert((((a + 48) as u8) as char) as u32 == (a + 48));
        assert((((b + 48) as u8) as char) as u32 == (b + 48));
    } else if a >= 10 && b >= 10 {
        lemma_dec_str_len(a / 10);
        lemma_dec_str_len(b / 10);
        assert(dec_str(a).drop_last() =~= dec_str(a / 10));
        assert(dec_str(b).drop_last() =~= dec_str(b / 10));
        lemma_dec_str_injective(a / 10, b / 10);
        assert(dec_str(a).last() == digit_char(a % 10));
        assert(dec_str(b).last() == digit_char(b % 10));
        assert((((a % 10 + 48) as u8) as char) as u32 == (a % 10 + 48));
        assert((((b % 10 + 48) as u8) as char) as u32 == (b % 10 + 48));
    } else if a < 10 {
        lemma_dec_str_len(b / 10);
        assert(dec_str(b).len() >= 2);
    } else {
        lemma_dec_str_len(a / 10);
        assert(dec_str(a).len() >= 2);
    }
}

} // verus!
