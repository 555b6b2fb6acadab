//! Character-level text operations.
//!
//! The record normalizers work on domain names and similar short strings:
//! they test whether a name mentions the query domain, split
//! newline-delimited certificate subject lists, trim stray whitespace,
//! strip the trailing root-label dot from DNS answers, and join name
//! server lists for display. Each operation is specified over the
//! string's view as a sequence of characters.

use vstd::prelude::*;

use vstd::string::StrSliceExecFns;
use vstd::string::StringExecFns;

verus! {

/// `needle` occurs contiguously somewhere in `hay`.
pub open spec fn is_substring_of(needle: Seq<char>, hay: Seq<char>) -> bool {
    exists|k: int|
        0 <= k <= hay.len() - needle.len() && #[trigger] hay.subrange(k, k + needle.len() as int)
            == needle
}

/// Does `hay` contain `needle` starting at position `k`?
fn matches_at(hay: &str, needle: &str, k: usize) -> (r: bool)
    requires
        k + needle@.len() <= hay@.len(),
    ensures
        r == (hay@.subrange(k as int, k as int + needle@.len() as int) == needle@),
{
    let n = needle.unicode_len();
    let h = hay.unicode_len();
    let mut i: usize = 0;
    while i < n
        invariant
            n == needle@.len(),
            h == hay@.len(),
            k + n <= h,
            i <= n,
            forall|j: int| 0 <= j < i ==> hay@[k + j] == needle@[j],
        decreases n - i,
    {
        if hay.get_char(k + i) != needle.get_char(i) {
            proof {
                assert(hay@.subrange(k as int, k as int + n as int)[i as int] == hay@[k + i]);
            }
            return false;
        }
        i = i + 1;
    }
    proof {
        assert(hay@.subrange(k as int, k as int + n as int) =~= needle@);
    }
    true
}

/// Executable substring test, agreeing with [`is_substring_of`].
pub fn str_contains(hay: &str, needle: &str) -> (r: bool)
    ensures
        r == is_substring_of(needle@, hay@),
{
    let n = needle.unicode_len();
    let h = hay.unicode_len();
    if n > h {
        return false;
    }
    if n == 0 {
        proof {
            assert(hay@.subrange(0, 0 + needle@.len() as int) =~= needle@);
        }
        return true;
    }
    let mut k: usize = 0;
    while k <= h - n
        invariant
            n == needle@.len(),
            h == hay@.len(),
            0 < n <= h,
            k <= h - n + 1,
            forall|k2: int|
                0 <= k2 < k ==> #[trigger] hay@.subrange(k2, k2 + needle@.len() as int)
                    != needle@,
        decreases h - n - k + 1,
    {
        if matches_at(hay, needle, k) {
            return true;
        }
        k = k + 1;
    }
    false
}

/// The characters this library treats as trimmable whitespace.
pub open spec fn is_space(c: char) -> bool {
    c == ' ' || c == '\t' || c == '\r' || c == '\n'
}

/// Leading whitespace removed.
pub open spec fn trim_start_chars(s: Seq<char>) -> Seq<char>
    decreases s.len(),
{
    if s.len() > 0 && is_space(s[0]) {
        trim_start_chars(s.drop_first())
    } else {
        s
    }
}

/// Trailing whitespace removed.
pub open spec fn trim_end_chars(s: Seq<char>) -> Seq<char>
    decreases s.len(),
{
    if s.len() > 0 && is_space(s.last()) {
        trim_end_chars(s.drop_last())
    } else {
        s
    }
}

/// Leading and trailing whitespace removed.
pub open spec fn trimmed(s: Seq<char>) -> Seq<char> {
    trim_end_chars(trim_start_chars(s))
}

proof fn lemma_trim_start_skip(s: Seq<char>, lo: int)
    requires
        0 <= lo <= s.len(),
        forall|j: int| 0 <= j < lo ==> is_space(s[j]),
        lo == s.len() || !is_space(s[lo]),
    ensures
        trim_start_chars(s) == s.skip(lo),
    decreases lo,
{
    if lo == 0 {
        assert(s.skip(0) =~= s);
    } else {
        lemma_trim_start_skip(s.drop_first(), lo - 1);
        assert(s.drop_first().skip(lo - 1) =~= s.skip(lo));
    }
}

proof fn lemma_trim_end_take(s: Seq<char>, hi: int)
    requires
        0 <= hi <= s.len(),
        forall|j: int| hi <= j < s.len() ==> is_space(s[j]),
        hi == 0 || !is_space(s[hi - 1]),
    ensures
        trim_end_chars(s) == s.take(hi),
    decreases s.len(),
{
    if hi == s.len() {
        assert(s.take(hi) =~= s);
    } else {
        lemma_trim_end_take(s.drop_last(), hi);
        assert(s.drop_last().take(hi) =~= s.take(hi));
    }
}

/// Executable trim, agreeing with [`trimmed`] on the view.
pub fn trim_spaces(s: &str) -> (r: String)
    ensures
        r@ == trimmed(s@),
{
    let len = s.unicode_len();
    let mut lo: usize = 0;
    while lo < len && is_space_char(s.get_char(lo))
        invariant
            len == s@.len(),
            lo <= len,
            forall|j: int| 0 <= j < lo ==> is_space(s@[j]),
        decreases len - lo,
    {
        lo = lo + 1;
    }
    proof {
        lemma_trim_start_skip(s@, lo as int);
    }
    if lo == len {
        let r = String::new();
        proof {
            assert(s@.skip(lo as int) =~= Seq::<char>::empty());
        }
        return r;
    }
    let mut hi: usize = len;
    while hi > lo && is_space_char(s.get_char(hi - 1))
        invariant
            len == s@.len(),
            lo <= hi <= len,
            forall|j: int| hi <= j < len ==> is_space(s@[j]),
        decreases hi,
    {
        hi = hi - 1;
    }
    proof {
        // The scan stopped either at `lo`, whose character is not a
        // space, or at a non-space character.
        assert(hi > lo);
        assert(!is_space(s@[hi - 1]));
        let t = s@.skip(lo as int);
        assert forall|j: int| hi - lo <= j < t.len() implies is_space(t[j]) by {
            assert(t[j] == s@[j + lo]);
        }
        assert(t[hi - lo - 1] == s@[hi - 1]);
        lemma_trim_end_take(t, hi - lo);
        assert(t.take(hi - lo) =~= s@.subrange(lo as int, hi as int));
    }
    let piece = s.substring_char(lo, hi);
    String::from_str(piece)
}

/// Executable whitespace test, agreeing with [`is_space`].
pub fn is_space_char(c: char) -> (r: bool)
    ensures
        r == is_space(c),
{
    c == ' ' || c == '\t' || c == '\r' || c == '\n'
}

/// All trailing occurrences of one character removed.
pub open spec fn strip_trailing(s: Seq<char>, c: char) -> Seq<char>
    decreases s.len(),
{
    if s.len() > 0 && s.last() == c {
        strip_trailing(s.drop_last(), c)
    } else {
        s
    }
}

proof fn lemma_strip_trailing_take(s: Seq<char>, c: char, hi: int)
    requires
        0 <= hi <= s.len(),
        forall|j: int| hi <= j < s.len() ==> s[j] == c,
        hi == 0 || s[hi - 1] != c,
    ensures
        strip_trailing(s, c) == s.take(hi),
    decreases s.len(),
{
    if hi == s.len() {
        assert(s.take(hi) =~= s);
    } else {
        lemma_strip_trailing_take(s.drop_last(), c, hi);
        assert(s.drop_last().take(hi) =~= s.take(hi));
    }
}

/// Remove every trailing occurrence of `c`: this strips the root-label
/// dot (or dots) from a DNS answer.
pub fn strip_trailing_char(s: &str, c: char) -> (r: String)
    ensures
        r@ == strip_trailing(s@, c),
{
    let len = s.unicode_len();
    let mut hi: usize = len;
    while hi > 0 && s.get_char(hi - 1) == c
        invariant
            len == s@.len(),
            hi <= len,
            forall|j: int| hi <= j < len ==> s@[j] == c,
        decreases hi,
    {
        hi = hi - 1;
    }
    proof {
        lemma_strip_trailing_take(s@, c, hi as int);
        assert(s@.take(hi as int) =~= s@.subrange(0, hi as int));
    }
    let piece = s.substring_char(0, hi);
    String::from_str(piece)
}

/// The pieces of `s` between occurrences of `sep`, in order: one more
/// piece than there are separators, each free of the separator.
pub open spec fn split_chars(s: Seq<char>, sep: char) -> Seq<Seq<char>>
    decreases s.len(),
{
    if s.len() == 0 {
        seq![Seq::<char>::empty()]
    } else if s[0] == sep {
        seq![Seq::<char>::empty()] + split_chars(s.drop_first(), sep)
    } else {
        let rest = split_chars(s.drop_first(), sep);
        seq![seq![s[0]] + rest[0]] + rest.drop_first()
    }
}

/// A split always yields at least one piece.
pub proof fn lemma_split_chars_len(s: Seq<char>, sep: char)
    ensures
        split_chars(s, sep).len() >= 1,
    decreases s.len(),
{
    if s.len() > 0 {
        lemma_split_chars_len(s.drop_first(), sep);
    }
}

/// Peeling the first piece off a split: if the first `k` characters are
/// separator-free and position `k` is a separator (or the end), the
/// split is that prefix followed by the split of what comes after the
/// separator.
proof fn lemma_split_chars_peel(s: Seq<char>, sep: char, k: int)
    requires
        0 <= k <= s.len(),
        forall|j: int| 0 <= j < k ==> s[j] != sep,
        k == s.len() || s[k] == sep,
    ensures
        k == s.len() ==> split_chars(s, sep) == seq![s],
        k < s.len() ==> split_chars(s, sep) == seq![s.take(k)] + split_chars(s.skip(k + 1), sep),
    decreases k,
{
    if k == 0 {
        if s.len() == 0 {
            assert(s =~= Seq::<char>::empty());
            assert(split_chars(s, sep) =~= seq![s]);
        } else {
            assert(s[0] == sep);
            assert(s.take(0) =~= Seq::<char>::empty());
            assert(s.skip(1) =~= s.drop_first());
            assert(split_chars(s, sep) =~= seq![s.take(0)] + split_chars(s.skip(1), sep));
        }
    } else {
        assert(s[0] != sep);
        let d = s.drop_first();
        lemma_split_chars_peel(d, sep, k - 1);
        lemma_split_chars_len(d, sep);
        let rest = split_chars(d, sep);
        if k == s.len() {
            assert(rest == seq![d]);
            assert(split_chars(s, sep) == seq![seq![s[0]] + rest[0]] + rest.drop_first());
            assert(seq![s[0]] + rest[0] =~= s);
            assert(rest.drop_first() =~= Seq::<Seq<char>>::empty());
            assert(seq![seq![s[0]] + rest[0]] + rest.drop_first() =~= seq![s]);
        } else {
            assert(d[k - 1] == sep);
            assert(rest == seq![d.take(k - 1)] + split_chars(d.skip(k), sep));
            assert(rest[0] == d.take(k - 1));
            assert(seq![s[0]] + rest[0] =~= s.take(k));
            assert(rest.drop_first() =~= split_chars(d.skip(k), sep));
            assert(d.skip(k) =~= s.skip(k + 1));
            assert(split_chars(s, sep) =~= seq![s.take(k)] + split_chars(s.skip(k + 1), sep));
        }
    }
}

/// The parts interleaved with the separator, in order.
pub open spec fn join_with(parts: Seq<Seq<char>>, sep: Seq<char>) -> Seq<char>
    decreases parts.len(),
{
    if parts.len() == 0 {
        Seq::empty()
    } else if parts.len() == 1 {
        parts[0]
    } else {
        parts[0] + sep + join_with(parts.drop_first(), sep)
    }
}

/// Appending one more part appends one separator and the part.
pub proof fn lemma_join_with_push(parts: Seq<Seq<char>>, x: Seq<char>, sep: Seq<char>)
    requires
        parts.len() >= 1,
    ensures
        join_with(parts.push(x), sep) == join_with(parts, sep) + sep + x,
    decreases parts.len(),
{
    if parts.len() == 1 {
        assert(parts.push(x).drop_first() =~= seq![x]);
        assert(join_with(seq![x], sep) == x);
        assert(join_with(parts.push(x), sep) == parts.push(x)[0] + sep + x);
        assert(parts.push(x)[0] == parts[0]);
        assert(join_with(parts, sep) == parts[0]);
    } else {
        assert(parts.push(x).drop_first() =~= parts.drop_first().push(x));
        lemma_join_with_push(parts.drop_first(), x, sep);
        assert(join_with(parts.push(x), sep) == parts.push(x)[0] + sep + join_with(
            parts.drop_first().push(x),
            sep,
        ));
        assert(parts[0] + sep + (join_with(parts.drop_first(), sep) + sep + x) =~= (parts[0] + sep
            + join_with(parts.drop_first(), sep)) + sep + x);
        assert(join_with(parts, sep) == parts[0] + sep + join_with(parts.drop_first(), sep));
    }
}

/// Split a string on one separator character. The parts carry no
/// occurrence of the separator, and joining them with it restores the
/// input exactly, which pins the result down.
pub fn split_on_char(s: &str, sep: char) -> (out: Vec<String>)
    ensures
        out.deep_view().len() >= 1,
        out.deep_view() == split_chars(s@, sep),
        join_with(out.deep_view(), seq![sep]) == s@,
        forall|i: int| 0 <= i < out.deep_view().len() ==> !out.deep_view()[i].contains(sep),
{
    let len = s.unicode_len();
    let mut parts: Vec<String> = Vec::new();
    let mut start: usize = 0;
    let mut i: usize = 0;
    proof {
        assert(s@.skip(0) =~= s@);
        assert(parts.deep_view() + split_chars(s@, sep) =~= split_chars(s@, sep));
    }
    while i < len
        invariant
            len == s@.len(),
            start <= i <= len,
            join_with(parts.deep_view().push(s@.subrange(start as int, i as int)), seq![sep])
                == s@.take(i as int),
            split_chars(s@, sep) == parts.deep_view() + split_chars(s@.skip(start as int), sep),
            forall|k: int| 0 <= k < parts.deep_view().len() ==> !parts.deep_view()[k].contains(sep),
            forall|j: int| start <= j < i ==> s@[j] != sep,
        decreases len - i,
    {
        let ghost pdv = parts.deep_view();
        let ghost cur = s@.subrange(start as int, i as int);
        let c = s.get_char(i);
        if c == sep {
            let piece = s.substring_char(start, i);
            parts.push(String::from_str(piece));
            proof {
                assert(parts.deep_view() =~= pdv.push(cur));
                assert(!cur.contains(sep)) by {
                    if cur.contains(sep) {
                        let j = choose|j: int| 0 <= j < cur.len() && cur[j] == sep;
                        assert(s@[start as int + j] == sep);
                    }
                }
                let parts2 = pdv.push(cur);
                let empty = s@.subrange(i as int + 1, i as int + 1);
                assert(empty =~= Seq::<char>::empty());
                lemma_join_with_push(parts2, empty, seq![sep]);
                assert(join_with(parts2, seq![sep]) + seq![sep] + empty =~= s@.take(i as int)
                    + seq![sep]);
                assert(s@.take(i as int) + seq![sep] =~= s@.take(i as int + 1));
                let tail = s@.skip(start as int);
                assert forall|j: int| 0 <= j < i - start implies tail[j] != sep by {
                    assert(tail[j] == s@[start + j]);
                }
                assert(tail[i - start] == sep);
                lemma_split_chars_peel(tail, sep, i - start);
                assert(tail.take(i - start) =~= cur);
                assert(tail.skip(i - start + 1) =~= s@.skip(i as int + 1));
                assert(parts.deep_view() + split_chars(s@.skip(i as int + 1), sep) =~= pdv + (
                seq![cur] + split_chars(s@.skip(i as int + 1), sep)));
            }
            start = i + 1;
        } else {
            proof {
                let cur2 = s@.subrange(start as int, i as int + 1);
                assert(cur2 =~= cur + seq![c]);
                if pdv.len() == 0 {
                    assert(join_with(pdv.push(cur2), seq![sep]) == cur2);
                    assert(cur2 =~= s@.take(i as int) + seq![c]);
                } else {
                    lemma_join_with_push(pdv, cur, seq![sep]);
                    lemma_join_with_push(pdv, cur2, seq![sep]);
                    assert(join_with(pdv.push(cur2), seq![sep]) =~= join_with(
                        pdv.push(cur),
                        seq![sep],
                    ) + seq![c]);
                }
                assert(s@.take(i as int) + seq![c] =~= s@.take(i as int + 1));
            }
        }
        i = i + 1;
    }
    let ghost pdv = parts.deep_view();
    let ghost cur = s@.subrange(start as int, len as int);
    let piece = s.substring_char(start, len);
    parts.push(String::from_str(piece));
    proof {
        assert(parts.deep_view() =~= pdv.push(cur));
        assert(!cur.contains(sep)) by {
            if cur.contains(sep) {
                let j = choose|j: int| 0 <= j < cur.len() && cur[j] == sep;
                assert(s@[start as int + j] == sep);
            }
        }
        assert(s@.take(len as int) =~= s@);
        let tail = s@.skip(start as int);
        assert forall|j: int| 0 <= j < tail.len() implies tail[j] != sep by {
            assert(tail[j] == s@[start + j]);
        }
        lemma_split_chars_peel(tail, sep, tail.len() as int);
        assert(tail =~= cur);
        assert(pdv + seq![cur] =~= pdv.push(cur));
    }
    parts
}

/// The character for one decimal digit.
pub open spec fn digit_char(d: nat) -> char
    recommends
        d < 10,
{
    ((d + 48) as u8) as char
}

/// The decimal digits of `n`, most significant first, no leading zeros
/// (zero itself is the single digit `0`).
pub open spec fn dec_chars(n: nat) -> Seq<char>
    decreases n,
{
    if n < 10 {
        seq![digit_char(n)]
    } else {
        dec_chars(n / 10).push(digit_char(n % 10))
    }
}

/// One decimal digit as text.
fn digit_str(d: u8) -> (r: &'static str)
    requires
        d < 10,
    ensures
        r@ == seq![digit_char(d as nat)],
{
    proof {
        reveal_strlit("0");
        reveal_strlit("1");
        reveal_strlit("2");
        reveal_strlit("3");
        reveal_strlit("4");
        reveal_strlit("5");
        reveal_strlit("6");
        reveal_strlit("7");
        reveal_strlit("8");
        reveal_strlit("9");
    }
    let r = match d {
        0 => "0",
        1 => "1",
        2 => "2",
        3 => "3",
        4 => "4",
        5 => "5",
        6 => "6",
        7 => "7",
        8 => "8",
        _ => "9",
    };
    proof {
        assert(r@ =~= seq![digit_char(d as nat)]);
    }
    r
}

/// Render an unsigned number in decimal.
pub fn u64_to_string(n: u64) -> (r: String)
    ensures
        r@ == dec_chars(n as nat),
{
    let mut m: u64 = n / 10;
    let d0: u8 = (n % 10) as u8;
    let mut r = String::from_str(digit_str(d0));
    proof {
        if n >= 10 {
            assert(dec_chars((n / 10) as nat).push(digit_char((n % 10) as nat)) =~= dec_chars(
                (n / 10) as nat,
            ) + r@);
        }
    }
    while m > 0
        invariant
            m > 0 ==> dec_chars(n as nat) == dec_chars(m as nat) + r@,
            m == 0 ==> dec_chars(n as nat) == r@,
        decreases m,
    {
        let ghost m0 = m as nat;
        let ghost r0 = r@;
        let d: u8 = (m % 10) as u8;
        r = String::from_str(digit_str(d)).concat(r.as_str());
        m = m / 10;
        proof {
            if m0 >= 10 {
                assert(dec_chars(m0) == dec_chars(m0 / 10).push(digit_char(m0 % 10)));
                assert(dec_chars(m0 / 10) + (seq![digit_char(m0 % 10)] + r0) =~= dec_chars(
                    m0 / 10,
                ).push(digit_char(m0 % 10)) + r0);
            } else {
                assert(dec_chars(m0) == seq![digit_char(m0)]);
                assert(m0 % 10 == m0);
            }
        }
    }
    r
}

/// Join strings with a separator, the inverse of [`split_on_char`] and
/// the renderer for name-server lists.
pub fn join_all(parts: &Vec<String>, sep: &str) -> (r: String)
    ensures
        r@ == join_with(parts.deep_view(), sep@),
{
    if parts.len() == 0 {
        return String::new();
    }
    let mut r = parts[0].clone();
    proof {
        assert(parts.deep_view()[0] == parts@[0]@);
        assert(parts.deep_view().take(1) =~= seq![parts.deep_view()[0]]);
        assert(join_with(seq![parts.deep_view()[0]], sep@) == parts.deep_view()[0]);
    }
    let mut i: usize = 1;
    while i < parts.len()
        invariant
            1 <= i <= parts.len(),
            parts.deep_view().len() == parts.len(),
            r@ == join_with(parts.deep_view().take(i as int), sep@),
        decreases parts.len() - i,
    {
        let ghost before = parts.deep_view().take(i as int);
        r.append(sep);
        r.append(parts[i].as_str());
        proof {
            assert(parts.deep_view()[i as int] == parts@[i as int]@);
            lemma_join_with_push(before, parts.deep_view()[i as int], sep@);
            assert(parts.deep_view().take(i as int + 1) =~= before.push(
                parts.deep_view()[i as int],
            ));
            assert(r@ =~= join_with(before, sep@) + sep@ + parts.deep_view()[i as int]);
        }
        i = i + 1;
    }
    proof {
        assert(parts.deep_view().take(parts.len() as int) =~= parts.deep_view());
    }
    r
}

} // verus!
