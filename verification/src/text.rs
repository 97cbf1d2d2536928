//! Character-level text utilities shared by the parsers and prompt builders.
//!
//! Texts are handled as sequences of Unicode scalar values. Every pattern the
//! library searches for is ASCII, so an index into the characters of a text
//! corresponds one for one to the byte offset that `str::find` reports.
use vstd::prelude::*;

verus! {

broadcast use vstd::string::group_string_axioms;

// ─── Specifications ────────────────────────────────────────────────

/// `p` occurs in `s` starting at index `i`.
pub open spec fn matches_at(s: Seq<char>, p: Seq<char>, i: int) -> bool {
    0 <= i && i + p.len() <= s.len() && s.subrange(i, i + p.len()) == p
}

/// The leftmost index at or after `from` where `p` occurs in `s`.
pub open spec fn find_from(s: Seq<char>, p: Seq<char>, from: int) -> Option<int>
    decreases s.len() + 1 - from,
{
    if from < 0 || from + p.len() > s.len() {
        None
    } else if matches_at(s, p, from) {
        Some(from)
    } else {
        find_from(s, p, from + 1)
    }
}

/// The leftmost index where `p` occurs in `s` (what `str::find` reports).
pub open spec fn find(s: Seq<char>, p: Seq<char>) -> Option<int> {
    find_from(s, p, 0)
}

/// The rightmost index below `hi` holding `c`.
pub open spec fn rfind_below(s: Seq<char>, c: char, hi: int) -> Option<int>
    decreases hi,
{
    if hi <= 0 || hi > s.len() {
        None
    } else if s[hi - 1] == c {
        Some(hi - 1)
    } else {
        rfind_below(s, c, hi - 1)
    }
}

/// The rightmost index holding `c` (what `str::rfind` reports).
pub open spec fn rfind(s: Seq<char>, c: char) -> Option<int> {
    rfind_below(s, c, s.len() as int)
}

/// The Unicode `White_Space` property, which `char::is_whitespace` tests.
pub open spec fn is_white_space(c: char) -> bool {
    ||| '\u{9}' <= c <= '\u{d}'
    ||| c == ' '
    ||| c == '\u{85}'
    ||| c == '\u{a0}'
    ||| c == '\u{1680}'
    ||| '\u{2000}' <= c <= '\u{200a}'
    ||| c == '\u{2028}'
    ||| c == '\u{2029}'
    ||| c == '\u{202f}'
    ||| c == '\u{205f}'
    ||| c == '\u{3000}'
}

/// `s` without its leading white space.
pub open spec fn trim_start(s: Seq<char>) -> Seq<char>
    decreases s.len(),
{
    if s.len() > 0 && is_white_space(s[0]) {
        trim_start(s.drop_first())
    } else {
        s
    }
}

/// `s` without its trailing white space.
pub open spec fn trim_end(s: Seq<char>) -> Seq<char>
    decreases s.len(),
{
    if s.len() > 0 && is_white_space(s.last()) {
        trim_end(s.drop_last())
    } else {
        s
    }
}

/// `s` without leading and trailing white space (what `str::trim` gives).
pub open spec fn trim(s: Seq<char>) -> Seq<char> {
    trim_end(trim_start(s))
}

/// An exec index that may be absent agrees with a spec index that may be absent.
pub open spec fn same_index(r: Option<usize>, o: Option<int>) -> bool {
    match r {
        Some(i) => o == Some(i as int),
        None => o is None,
    }
}

/// The decimal digit character for `d < 10`.
pub open spec fn digit_char(d: nat) -> char {
    (48 + d) as char
}

/// The decimal numeral of `n`, without leading zeros.
pub open spec fn decimal(n: nat) -> Seq<char>
    decreases n,
{
    if n < 10 {
        seq![digit_char(n)]
    } else {
        decimal(n / 10).push(digit_char(n % 10))
    }
}

/// The decimal numeral of a signed integer, with a leading `-` when negative.
pub open spec fn signed_decimal(n: int) -> Seq<char> {
    if n < 0 {
        seq!['-'] + decimal((-n) as nat)
    } else {
        decimal(n as nat)
    }
}

/// The number of bytes the UTF-8 encoding of `c` takes.
pub open spec fn utf8_width(c: char) -> nat {
    if (c as u32) < 0x80 {
        1
    } else if (c as u32) < 0x800 {
        2
    } else if (c as u32) < 0x10000 {
        3
    } else {
        4
    }
}

/// The number of bytes the UTF-8 encoding of `s` takes (what `str::len` reports).
pub open spec fn utf8_len(s: Seq<char>) -> nat
    decreases s.len(),
{
    if s.len() == 0 {
        0
    } else {
        utf8_len(s.drop_last()) + utf8_width(s.last())
    }
}

/// `s` starts with `p`.
pub open spec fn starts_with(s: Seq<char>, p: Seq<char>) -> bool {
    p.len() <= s.len() && s.take(p.len() as int) == p
}

/// The pieces of `s` between occurrences of `sep`, as `str::split` yields them: an empty
/// text is one empty piece, and a separator at either end gives an empty piece there.
pub open spec fn split_on(s: Seq<char>, sep: char) -> Seq<Seq<char>>
    decreases s.len(),
{
    if s.len() == 0 {
        seq![Seq::<char>::empty()]
    } else {
        let rest = split_on(s.drop_last(), sep);
        if s.last() == sep {
            rest.push(Seq::<char>::empty())
        } else {
            rest.update(rest.len() - 1, rest.last().push(s.last()))
        }
    }
}

/// The `parts` with `sep` between each two of them, as `[String]::join` gives.
pub open spec fn join(parts: Seq<Seq<char>>, sep: Seq<char>) -> Seq<char>
    decreases parts.len(),
{
    if parts.len() == 0 {
        Seq::empty()
    } else if parts.len() == 1 {
        parts[0]
    } else {
        join(parts.drop_last(), sep) + sep + parts.last()
    }
}

/// The text views of a list of strings.
pub open spec fn texts(v: Seq<String>) -> Seq<Seq<char>> {
    v.map_values(|s: String| s@)
}

/// The value paired with `key`: that of the first pair with that key.
pub open spec fn value_of(pairs: Seq<(Seq<char>, Seq<char>)>, key: Seq<char>) -> Option<Seq<char>>
    decreases pairs.len(),
{
    if pairs.len() == 0 {
        None
    } else if pairs[0].0 == key {
        Some(pairs[0].1)
    } else {
        value_of(pairs.drop_first(), key)
    }
}

/// The text views of a list of pairs of strings.
pub open spec fn pair_views(pairs: Seq<(String, String)>) -> Seq<(Seq<char>, Seq<char>)> {
    pairs.map_values(|p: (String, String)| (p.0@, p.1@))
}

/// `split_on` always yields at least one piece.
pub proof fn lemma_split_nonempty(s: Seq<char>, sep: char)
    ensures
        split_on(s, sep).len() >= 1,
    decreases s.len(),
{
    if s.len() > 0 {
        lemma_split_nonempty(s.drop_last(), sep);
    }
}

// ─── Trusted std operation ─────────────────────────────────────────

/// `String::push`: appends one character to the end of the string.
#[verifier::external_body]
pub fn string_push(s: &mut String, c: char)
    ensures
        final(s)@ == old(s)@.push(c),
{
    s.push(c);
}

/// Whether `c` has the Unicode `White_Space` property (what `char::is_whitespace` tests).
pub fn char_is_whitespace(c: char) -> (r: bool)
    ensures
        r == is_white_space(c),
{
    ('\u{9}' <= c && c <= '\u{d}') || c == ' ' || c == '\u{85}' || c == '\u{a0}' || c == '\u{1680}'
        || ('\u{2000}' <= c && c <= '\u{200a}') || c == '\u{2028}' || c == '\u{2029}' || c
        == '\u{202f}' || c == '\u{205f}' || c == '\u{3000}'
}

/// The number of bytes the UTF-8 encoding of `c` takes.
pub fn char_utf8_width(c: char) -> (r: usize)
    ensures
        r == utf8_width(c),
{
    let v = c as u32;
    if v < 0x80 {
        1
    } else if v < 0x800 {
        2
    } else if v < 0x10000 {
        3
    } else {
        4
    }
}

// ─── Conversions ───────────────────────────────────────────────────

/// The characters of a string slice, in order.
pub fn chars_of(s: &str) -> (v: Vec<char>)
    ensures
        v@ == s@,
{
    let mut v: Vec<char> = Vec::new();
    for c in it: s.chars()
        invariant
            v@ == it.seq().take(it.index() as int),
            it.seq() == s@,
    {
        v.push(c);
    }
    v
}

/// Appends `v[lo..hi]` to `s`.
pub fn push_range(s: &mut String, v: &Vec<char>, lo: usize, hi: usize)
    requires
        lo <= hi <= v@.len(),
    ensures
        final(s)@ == old(s)@ + v@.subrange(lo as int, hi as int),
{
    let mut i = lo;
    while i < hi
        invariant
            lo <= i <= hi <= v@.len(),
            s@ == old(s)@ + v@.subrange(lo as int, i as int),
        decreases hi - i,
    {
        string_push(s, v[i]);
        i = i + 1;
        assert(v@.subrange(lo as int, i as int) =~= v@.subrange(lo as int, (i - 1) as int).push(
            v@[i - 1],
        ));
    }
}

/// A new string holding `v[lo..hi]`.
pub fn string_of_range(v: &Vec<char>, lo: usize, hi: usize) -> (s: String)
    requires
        lo <= hi <= v@.len(),
    ensures
        s@ == v@.subrange(lo as int, hi as int),
{
    let mut s = String::new();
    push_range(&mut s, v, lo, hi);
    s
}

/// A new vector holding `v[lo..hi]`.
pub fn sub_vec(v: &Vec<char>, lo: usize, hi: usize) -> (r: Vec<char>)
    requires
        lo <= hi <= v@.len(),
    ensures
        r@ == v@.subrange(lo as int, hi as int),
{
    let mut r: Vec<char> = Vec::new();
    let mut i = lo;
    while i < hi
        invariant
            lo <= i <= hi <= v@.len(),
            r@ == v@.subrange(lo as int, i as int),
        decreases hi - i,
    {
        r.push(v[i]);
        i = i + 1;
        assert(r@ =~= v@.subrange(lo as int, i as int));
    }
    r
}

/// Appends a string slice to `s`.
pub fn push_str(s: &mut String, t: &str)
    ensures
        final(s)@ == old(s)@ + t@,
{
    let v = chars_of(t);
    push_range(s, &v, 0, v.len());
    assert(v@.subrange(0, v@.len() as int) =~= t@);
}

/// Whether two character vectors are equal.
pub fn chars_eq(a: &Vec<char>, b: &Vec<char>) -> (r: bool)
    ensures
        r == (a@ == b@),
{
    if a.len() != b.len() {
        return false;
    }
    let mut i: usize = 0;
    while i < a.len()
        invariant
            a@.len() == b@.len(),
            i <= a@.len(),
            forall|j: int| 0 <= j < i ==> a@[j] == b@[j],
        decreases a.len() - i,
    {
        if a[i] != b[i] {
            return false;
        }
        i = i + 1;
    }
    assert(a@ =~= b@);
    true
}

/// Whether two string slices hold the same characters.
pub fn str_eq(a: &str, b: &str) -> (r: bool)
    ensures
        r == (a@ == b@),
{
    let va = chars_of(a);
    let vb = chars_of(b);
    chars_eq(&va, &vb)
}

// ─── Searching ─────────────────────────────────────────────────────

/// Whether `p` occurs in `s` at index `i`.
pub fn matches_at_exec(s: &Vec<char>, p: &Vec<char>, i: usize) -> (r: bool)
    ensures
        r == matches_at(s@, p@, i as int),
{
    if p.len() > s.len() || i > s.len() - p.len() {
        return false;
    }
    let mut k: usize = 0;
    while k < p.len()
        invariant
            i + p@.len() <= s@.len(),
            s@.len() == s.len(),
            p@.len() == p.len(),
            k <= p@.len(),
            forall|j: int| 0 <= j < k ==> s@[i + j] == p@[j],
        decreases p.len() - k,
    {
        if s[i + k] != p[k] {
            assert(s@.subrange(i as int, i + p@.len())[k as int] != p@[k as int]);
            return false;
        }
        k = k + 1;
    }
    assert(s@.subrange(i as int, i + p@.len()) =~= p@);
    true
}

/// The leftmost occurrence of `p` in `s` at or after `from`.
pub fn find_from_exec(s: &Vec<char>, p: &Vec<char>, from: usize) -> (r: Option<usize>)
    ensures
        same_index(r, find_from(s@, p@, from as int)),
{
    if p.len() == 0 {
        if from <= s.len() {
            assert(s@.subrange(from as int, from as int) =~= p@);
            return Some(from);
        }
        return None;
    }
    let mut i = from;
    while p.len() <= s.len() && i <= s.len() - p.len()
        invariant
            from <= i,
            p.len() > 0,
            find_from(s@, p@, from as int) == find_from(s@, p@, i as int),
        decreases s.len() + 1 - i,
    {
        if matches_at_exec(s, p, i) {
            return Some(i);
        }
        i = i + 1;
    }
    None
}

/// The leftmost occurrence of `p` in `s`.
pub fn find_exec(s: &Vec<char>, p: &Vec<char>) -> (r: Option<usize>)
    ensures
        same_index(r, find(s@, p@)),
{
    find_from_exec(s, p, 0)
}

/// The rightmost occurrence of `c` in `s`.
pub fn rfind_exec(s: &Vec<char>, c: char) -> (r: Option<usize>)
    ensures
        same_index(r, rfind(s@, c)),
{
    let mut hi = s.len();
    while hi > 0
        invariant
            hi <= s@.len(),
            rfind(s@, c) == rfind_below(s@, c, hi as int),
        decreases hi,
    {
        if s[hi - 1] == c {
            return Some(hi - 1);
        }
        hi = hi - 1;
    }
    None
}

/// Where `rfind` reports a match, it is in bounds and holds `c`.
pub proof fn lemma_rfind_bounds(s: Seq<char>, c: char)
    ensures
        rfind(s, c) matches Some(i) ==> 0 <= i < s.len() && s[i] == c,
{
    lemma_rfind_below_bounds(s, c, s.len() as int);
}

proof fn lemma_rfind_below_bounds(s: Seq<char>, c: char, hi: int)
    ensures
        rfind_below(s, c, hi) matches Some(i) ==> 0 <= i < hi && i < s.len() && s[i] == c,
    decreases hi,
{
    if hi > 0 && hi <= s.len() && s[hi - 1] != c {
        lemma_rfind_below_bounds(s, c, hi - 1);
    }
}

// ─── Trimming ──────────────────────────────────────────────────────

/// Bounds of `s[lo..hi]` with leading and trailing white space removed.
pub fn trim_bounds(s: &Vec<char>, lo: usize, hi: usize) -> (r: (usize, usize))
    requires
        lo <= hi <= s@.len(),
    ensures
        lo <= r.0 <= r.1 <= hi,
        s@.subrange(r.0 as int, r.1 as int) == trim(s@.subrange(lo as int, hi as int)),
{
    let mut a = lo;
    while a < hi && char_is_whitespace(s[a])
        invariant
            lo <= a <= hi <= s@.len(),
            trim_start(s@.subrange(lo as int, hi as int)) == trim_start(
                s@.subrange(a as int, hi as int),
            ),
        decreases hi - a,
    {
        assert(s@.subrange(a as int, hi as int).drop_first() =~= s@.subrange(
            a + 1,
            hi as int,
        ));
        a = a + 1;
    }
    let mut b = hi;
    while b > a && char_is_whitespace(s[b - 1])
        invariant
            lo <= a <= b <= hi <= s@.len(),
            trim_end(s@.subrange(a as int, hi as int)) == trim_end(s@.subrange(a as int, b as int)),
        decreases b - a,
    {
        assert(s@.subrange(a as int, b as int).drop_last() =~= s@.subrange(
            a as int,
            b - 1,
        ));
        b = b - 1;
    }
    (a, b)
}

/// The pieces of `s` between occurrences of `sep`.
pub fn split_chars(s: &Vec<char>, sep: char) -> (r: Vec<Vec<char>>)
    ensures
        r.deep_view() == split_on(s@, sep),
{
    let mut pieces: Vec<Vec<char>> = Vec::new();
    let mut cur: Vec<char> = Vec::new();
    let mut i: usize = 0;
    assert(s@.take(0) =~= Seq::<char>::empty());
    assert(pieces.deep_view().push(cur@) =~= split_on(s@.take(0), sep));
    while i < s.len()
        invariant
            i <= s@.len(),
            pieces.deep_view().push(cur@) == split_on(s@.take(i as int), sep),
        decreases s.len() - i,
    {
        let ghost before = pieces.deep_view().push(cur@);
        assert(s@.take(i + 1).drop_last() =~= s@.take(i as int));
        proof {
            lemma_split_nonempty(s@.take(i as int), sep);
        }
        let c = s[i];
        if c == sep {
            let done = cur;
            assert(done.deep_view() =~= done@);
            pieces.push(done);
            cur = Vec::new();
            assert(pieces.deep_view() =~= before);
            assert(pieces.deep_view().push(cur@) =~= before.push(Seq::<char>::empty()));
        } else {
            cur.push(c);
            assert(pieces.deep_view().push(cur@) =~= before.update(
                before.len() - 1,
                before.last().push(c),
            ));
        }
        i = i + 1;
    }
    let ghost before = pieces.deep_view();
    assert(cur.deep_view() =~= cur@);
    pieces.push(cur);
    assert(pieces.deep_view() =~= before.push(cur@));
    assert(s@.take(s@.len() as int) =~= s@);
    pieces
}

/// Appends the `parts`, separated by `sep`, to `out`.
pub fn push_joined(out: &mut String, parts: &[String], sep: &str)
    ensures
        final(out)@ == old(out)@ + join(texts(parts@), sep@),
{
    let ghost start = out@;
    let ghost ps = texts(parts@);
    let mut i: usize = 0;
    assert(ps.take(0) =~= Seq::<Seq<char>>::empty());
    while i < parts.len()
        invariant
            i <= parts@.len(),
            ps == texts(parts@),
            out@ == start + join(ps.take(i as int), sep@),
        decreases parts.len() - i,
    {
        assert(ps.take(i + 1).drop_last() =~= ps.take(i as int));
        assert(ps.take(i + 1).last() == parts@[i as int]@);
        if i > 0 {
            push_str(out, sep);
        } else {
            assert(ps.take(1) =~= seq![parts@[0]@]);
        }
        push_str(out, parts[i].as_str());
        assert(out@ =~= start + join(ps.take(i + 1), sep@));
        i = i + 1;
    }
    assert(ps.take(i as int) =~= ps);
}

/// The value paired with `key` among `pairs`.
pub fn lookup_value(pairs: &Vec<(String, String)>, key: &str) -> (r: Option<String>)
    ensures
        match value_of(pair_views(pairs@), key@) {
            Some(v) => r matches Some(s) && s@ == v,
            None => r is None,
        },
{
    let ghost pv = pair_views(pairs@);
    let mut i: usize = 0;
    assert(pv.skip(0) =~= pv);
    while i < pairs.len()
        invariant
            i <= pairs@.len(),
            pv == pair_views(pairs@),
            value_of(pv, key@) == value_of(pv.skip(i as int), key@),
        decreases pairs.len() - i,
    {
        assert(pv.skip(i as int).drop_first() =~= pv.skip(i + 1));
        assert(pv.skip(i as int)[0] == (pairs@[i as int].0@, pairs@[i as int].1@));
        if str_eq(pairs[i].0.as_str(), key) {
            return Some(pairs[i].1.clone());
        }
        i = i + 1;
    }
    assert(pv.skip(i as int) =~= Seq::<(Seq<char>, Seq<char>)>::empty());
    None
}

// ─── Numerals ──────────────────────────────────────────────────────

fn digit(d: u64) -> (c: char)
    requires
        d < 10,
    ensures
        c == digit_char(d as nat),
{
    ((48 + d) as u8) as char
}

/// Appends the decimal numeral of `n` to `s`.
pub fn push_decimal(s: &mut String, n: u64)
    ensures
        final(s)@ == old(s)@ + decimal(n as nat),
    decreases n,
{
    if n >= 10 {
        push_decimal(s, n / 10);
    }
    string_push(s, digit(n % 10));
}

/// Appends the decimal numeral of a signed `n` to `s`.
pub fn push_signed_decimal(s: &mut String, n: i64)
    ensures
        final(s)@ == old(s)@ + signed_decimal(n as int),
{
    if n < 0 {
        string_push(s, '-');
        let m: u64 = ((-(n + 1)) as u64) + 1;
        push_decimal(s, m);
        assert(s@ =~= old(s)@ + signed_decimal(n as int));
    } else {
        push_decimal(s, n as u64);
    }
}

} // verus!
