//! Small verified string operations shared by the modules.
use vstd::prelude::*;
use vstd::string::{StrSliceExecFns, StringExecFns};

verus! {

/// `a` followed by `b`.
pub fn concat(a: &str, b: &str) -> (r: String)
    ensures
        r@ == a@ + b@,
{
    let mut s = a.to_owned();
    s.append(b);
    s
}

/// `a`, `b` and `c` one after the other.
pub fn concat3(a: &str, b: &str, c: &str) -> (r: String)
    ensures
        r@ == a@ + b@ + c@,
{
    let mut s = a.to_owned();
    s.append(b);
    s.append(c);
    s
}

/// A fresh string holding the text of `s`.
pub fn owned(s: &str) -> (r: String)
    ensures
        r@ == s@,
{
    s.to_owned()
}

/// Whether `s` is one of `options`.
pub fn one_of(s: &str, options: &Vec<&str>) -> (b: bool)
    ensures
        b == options@.map_values(|o: &str| o@).contains(s@),
{
    let ghost opts = options@.map_values(|o: &str| o@);
    let n = options.len();
    let mut i: usize = 0;
    while i < n
        invariant
            n == options@.len(),
            opts == options@.map_values(|o: &str| o@),
            i <= n,
            forall|j: int| 0 <= j < i ==> opts[j] != s@,
        decreases n - i,
    {
        if crate::value::str_eq(options[i], s) {
            assert(opts[i as int] == s@);
            return true;
        }
        i = i + 1;
    }
    false
}

/// The digit for `d`, which is below 10.
pub open spec fn digit(d: nat) -> char {
    if d == 0 { '0' }
    else if d == 1 { '1' }
    else if d == 2 { '2' }
    else if d == 3 { '3' }
    else if d == 4 { '4' }
    else if d == 5 { '5' }
    else if d == 6 { '6' }
    else if d == 7 { '7' }
    else if d == 8 { '8' }
    else { '9' }
}

/// The decimal text of `n`, without leading zeros.
pub open spec fn decimal(n: nat) -> Seq<char>
    decreases n,
{
    if n < 10 {
        seq![digit(n)]
    } else {
        decimal(n / 10).push(digit(n % 10))
    }
}

fn digit_str(d: u64) -> (c: &'static str)
    requires
        d < 10,
    ensures
        c@ == seq![digit(d as nat)],
{
    proof {
        reveal_strlit("0");
        reveal_strlit("1");
        reveal_strlit("2");
        reveal_strlit("3");
        reveal_strlit("4");
        reveal_strlit("5");
        reveal_strlit("6");
        reveal_strlit("7");
        reveal_strlit("8");
        reveal_strlit("9");
    }
    if d == 0 { "0" }
    else if d == 1 { "1" }
    else if d == 2 { "2" }
    else if d == 3 { "3" }
    else if d == 4 { "4" }
    else if d == 5 { "5" }
    else if d == 6 { "6" }
    else if d == 7 { "7" }
    else if d == 8 { "8" }
    else { "9" }
}

/// The decimal text of `n`.
pub fn u64_to_string(n: u64) -> (r: String)
    ensures
        r@ == decimal(n as nat),
    decreases n,
{
    let one = digit_str(n % 10);
    if n < 10 {
        owned(one)
    } else {
        let head = u64_to_string(n / 10);
        let r = concat(head.as_str(), one);
        assert(r@ == decimal((n / 10) as nat).push(digit((n % 10) as nat)));
        r
    }
}

/// The decimal text of the integer `i`: a minus sign before the digits of
/// a negative one.
pub open spec fn int_decimal(i: int) -> Seq<char> {
    if i < 0 {
        seq!['-'] + decimal((-i) as nat)
    } else {
        decimal(i as nat)
    }
}

/// The decimal text of `i`.
pub fn i64_to_string(i: i64) -> (r: String)
    ensures
        r@ == int_decimal(i as int),
{
    if i < 0 {
        let magnitude: u64 = ((-(i + 1)) as u64) + 1;
        let digits = u64_to_string(magnitude);
        proof {
            reveal_strlit("-");
        }
        concat("-", digits.as_str())
    } else {
        u64_to_string(i as u64)
    }
}

/// The characters of `s`.
pub fn chars_of(s: &str) -> (v: Vec<char>)
    ensures
        v@ == s@,
{
    let n = s.unicode_len();
    let mut v: Vec<char> = Vec::new();
    for i in 0..n
        invariant
            n == s@.len(),
            v@ == s@.take(i as int),
    {
        let c = s.get_char(i);
        v.push(c);
        assert(s@.take(i + 1) == s@.take(i as int).push(c));
    }
    assert(s@.take(n as int) == s@);
    v
}

/// Whether `p` occurs in `s` at position `i`.
pub open spec fn occurs_at(s: Seq<char>, p: Seq<char>, i: int) -> bool {
    0 <= i && i + p.len() <= s.len() && s.subrange(i, i + p.len()) == p
}

/// Whether `p` occurs anywhere in `s`.
pub open spec fn contains_text(s: Seq<char>, p: Seq<char>) -> bool {
    exists|i: int| occurs_at(s, p, i)
}

fn occurs_at_exec(s: &Vec<char>, p: &Vec<char>, i: usize) -> (b: bool)
    ensures
        b == occurs_at(s@, p@, i as int),
{
    if i > s.len() || p.len() > s.len() - i {
        return false;
    }
    let n = p.len();
    for j in 0..n
        invariant
            n == p@.len(),
            i + n <= s@.len(),
            s@.len() == s.len(),
            forall|k: int| 0 <= k < j ==> s@[i + k] == p@[k],
    {
        if s[i + j] != p[j] {
            assert(s@.subrange(i as int, i + n)[j as int] != p@[j as int]);
            return false;
        }
    }
    assert(s@.subrange(i as int, i + n) == p@);
    true
}

/// Whether `s` begins with `p`.
pub fn starts_with(s: &str, p: &str) -> (b: bool)
    ensures
        b == p@.is_prefix_of(s@),
{
    let sv = chars_of(s);
    let pv = chars_of(p);
    let b = occurs_at_exec(&sv, &pv, 0);
    proof {
        if b {
            assert forall|i: int| 0 <= i < p@.len() implies p@[i] == s@[i] by {
                assert(s@.subrange(0, p@.len() as int)[i] == s@[i]);
            }
        }
        if p@.is_prefix_of(s@) {
            assert(s@.subrange(0, p@.len() as int) == p@);
        }
    }
    b
}

/// Whether `s` ends with `p`.
pub fn ends_with(s: &str, p: &str) -> (b: bool)
    ensures
        b == p@.is_suffix_of(s@),
{
    let sv = chars_of(s);
    let pv = chars_of(p);
    if pv.len() > sv.len() {
        return false;
    }
    let start = sv.len() - pv.len();
    let b = occurs_at_exec(&sv, &pv, start);
    proof {
        let d = s@.len() - p@.len();
        if b {
            assert forall|i: int| 0 <= i < p@.len() implies p@[i] == s@[d + i] by {
                assert(s@.subrange(d, s@.len() as int)[i] == s@[d + i]);
            }
        }
        if p@.is_suffix_of(s@) {
            assert(s@.subrange(d, d + p@.len()) == p@);
        }
    }
    b
}

/// Whether `p` occurs in `s`.
pub fn contains(s: &str, p: &str) -> (b: bool)
    ensures
        b == contains_text(s@, p@),
{
    let sv = chars_of(s);
    let pv = chars_of(p);
    if pv.len() > sv.len() {
        return false;
    }
    let last = sv.len() - pv.len();
    let mut i: usize = 0;
    while i <= last
        invariant
            sv@ == s@,
            pv@ == p@,
            last == s@.len() - p@.len(),
            forall|k: int| 0 <= k < i ==> !occurs_at(s@, p@, k),
        decreases last + 1 - i,
    {
        if occurs_at_exec(&sv, &pv, i) {
            return true;
        }
        if i == last {
            proof {
                assert forall|k: int| !occurs_at(s@, p@, k) by {
                    if 0 <= k <= last {
                        assert(k < i || k == i);
                    }
                }
            }
            return false;
        }
        i = i + 1;
    }
    proof {
        assert forall|k: int| !occurs_at(s@, p@, k) by {
            if 0 <= k <= last {
                assert(k < i);
            }
        }
    }
    false
}

/// Whether `c` is white space: the characters of the Unicode `White_Space`
/// property.
pub open spec fn is_ws(c: char) -> bool {
    ||| '\u{9}' <= c <= '\u{d}'
    ||| c == ' '
    ||| c == '\u{85}'
    ||| c == '\u{a0}'
    ||| c == '\u{1680}'
    ||| '\u{2000}' <= c <= '\u{200a}'
    ||| c == '\u{2028}'
    ||| c == '\u{2029}'
    ||| c == '\u{202f}'
    ||| c == '\u{205f}'
    ||| c == '\u{3000}'
}

fn is_ws_exec(c: char) -> (b: bool)
    ensures
        b == is_ws(c),
{
    ('\u{9}' <= c && c <= '\u{d}') || c == ' ' || c == '\u{85}' || c == '\u{a0}' || c == '\u{1680}'
        || ('\u{2000}' <= c && c <= '\u{200a}') || c == '\u{2028}' || c == '\u{2029}' || c
        == '\u{202f}' || c == '\u{205f}' || c == '\u{3000}'
}

/// `s` without its leading white space.
pub open spec fn trim_start(s: Seq<char>) -> Seq<char>
    decreases s.len(),
{
    if s.len() > 0 && is_ws(s[0]) {
        trim_start(s.skip(1))
    } else {
        s
    }
}

/// `s` without its trailing white space.
pub open spec fn trim_end(s: Seq<char>) -> Seq<char>
    decreases s.len(),
{
    if s.len() > 0 && is_ws(s.last()) {
        trim_end(s.drop_last())
    } else {
        s
    }
}

/// `s` without leading and trailing white space.
pub open spec fn trim_text(s: Seq<char>) -> Seq<char> {
    trim_end(trim_start(s))
}

/// `s` without leading and trailing white space.
pub fn trim(s: &str) -> (r: String)
    ensures
        r@ == trim_text(s@),
{
    let v = chars_of(s);
    let n = v.len();
    let mut a: usize = 0;
    assert(s@.skip(0) == s@);
    while a < n && is_ws_exec(v[a])
        invariant
            v@ == s@,
            n == s@.len(),
            a <= n,
            trim_start(s@) == trim_start(s@.skip(a as int)),
        decreases n - a,
    {
        assert(s@.skip(a as int)[0] == s@[a as int]);
        assert(s@.skip(a as int).skip(1) == s@.skip(a + 1));
        a = a + 1;
    }
    let ghost mid = s@.skip(a as int);
    assert(trim_start(s@) == mid) by {
        if a < n {
            assert(mid[0] == s@[a as int]);
        }
    }
    let mut b: usize = n;
    assert(mid.take(n - a) == mid);
    while b > a && is_ws_exec(v[b - 1])
        invariant
            v@ == s@,
            n == s@.len(),
            a <= b <= n,
            mid == s@.skip(a as int),
            trim_end(mid) == trim_end(mid.take(b - a)),
        decreases b,
    {
        assert(mid.take(b - a).last() == s@[b - 1]);
        assert(mid.take(b - a).drop_last() == mid.take(b - 1 - a));
        b = b - 1;
    }
    assert(trim_end(mid) == mid.take(b - a)) by {
        if b > a {
            assert(mid.take(b - a).last() == s@[b - 1]);
        }
    }
    assert(mid.take(b - a) == s@.subrange(a as int, b as int));
    owned(s.substring_char(a, b))
}


/// The number of bytes of `c` in UTF-8.
pub open spec fn char_width(c: char) -> nat {
    let u = c as u32;
    if u <= 0x7f {
        1
    } else if u <= 0x7ff {
        2
    } else if u <= 0xffff {
        3
    } else {
        4
    }
}

/// The number of bytes of `s` in UTF-8.
pub open spec fn byte_len(s: Seq<char>) -> nat
    decreases s.len(),
{
    if s.len() == 0 {
        0
    } else {
        byte_len(s.drop_last()) + char_width(s.last())
    }
}

/// The position of the character of `s` at which byte `b` starts, where a
/// character starts there or `b` is the length of `s` in bytes.
pub open spec fn char_at_byte(s: Seq<char>, b: int) -> Option<int> {
    if exists|k: int| 0 <= k <= s.len() && #[trigger] byte_len(s.take(k)) == b {
        Some(choose|k: int| 0 <= k <= s.len() && #[trigger] byte_len(s.take(k)) == b)
    } else {
        None
    }
}

proof fn lemma_byte_len_step(s: Seq<char>, k: int)
    requires
        0 < k <= s.len(),
    ensures
        byte_len(s.take(k)) == byte_len(s.take(k - 1)) + char_width(s[k - 1]),
{
    assert(s.take(k).drop_last() == s.take(k - 1));
}

/// Byte offsets grow strictly with the number of characters before them.
pub proof fn lemma_byte_len_strict(s: Seq<char>, j: int, k: int)
    requires
        0 <= j < k <= s.len(),
    ensures
        byte_len(s.take(j)) < byte_len(s.take(k)),
    decreases k - j,
{
    lemma_byte_len_step(s, k);
    if j < k - 1 {
        lemma_byte_len_strict(s, j, k - 1);
    }
}

/// The position of a byte offset is the one a character starts at.
pub proof fn lemma_char_at_byte(s: Seq<char>, b: int, k: int)
    requires
        0 <= k <= s.len(),
        byte_len(s.take(k)) == b,
    ensures
        char_at_byte(s, b) == Some(k),
{
    let c = choose|k: int| 0 <= k <= s.len() && #[trigger] byte_len(s.take(k)) == b;
    if c < k {
        lemma_byte_len_strict(s, c, k);
    } else if k < c {
        lemma_byte_len_strict(s, k, c);
    }
}

proof fn lemma_byte_len_front(s: Seq<char>)
    requires
        s.len() > 0,
    ensures
        byte_len(s) == char_width(s[0]) + byte_len(s.drop_first()),
    decreases s.len(),
{
    if s.len() > 1 {
        lemma_byte_len_front(s.drop_last());
        assert(s.drop_last().drop_first() == s.drop_first().drop_last());
        assert(s.drop_last()[0] == s[0]);
        assert(s.drop_first().last() == s.last());
        let t = s.drop_first();
        assert(byte_len(t) == byte_len(t.drop_last()) + char_width(t.last()));
        assert(byte_len(s) == byte_len(s.drop_last()) + char_width(s.last()));
    } else {
        assert(s.drop_first().len() == 0);
        assert(s.drop_last().len() == 0);
        assert(s.last() == s[0]);
        assert(byte_len(s) == byte_len(s.drop_last()) + char_width(s.last()));
    }
}

/// The length in bytes is that of the UTF-8 encoding.
pub proof fn lemma_byte_len_encoding(s: Seq<char>)
    ensures
        byte_len(s) == vstd::utf8::encode_utf8(s).len(),
    decreases s.len(),
{
    if s.len() > 0 {
        lemma_byte_len_front(s);
        lemma_byte_len_encoding(s.drop_first());
        vstd::utf8::char_is_scalar(s[0]);
    }
}

/// The number of bytes of `c` in UTF-8.
pub fn char_width_of(c: char) -> (w: usize)
    ensures
        w == char_width(c),
{
    let u = c as u32;
    if u <= 0x7f {
        1
    } else if u <= 0x7ff {
        2
    } else if u <= 0xffff {
        3
    } else {
        4
    }
}

/// The position of the character of `s` at which byte `b` starts.
pub fn char_index_at_byte(s: &str, b: usize) -> (r: Option<usize>)
    ensures
        match r {
            Some(k) => char_at_byte(s@, b as int) == Some(k as int),
            None => char_at_byte(s@, b as int) is None,
        },
{
    let v = chars_of(s);
    let n = v.len();
    let mut acc: usize = 0;
    let mut i: usize = 0;
    while i < n
        invariant
            v@ == s@,
            n == s@.len(),
            i <= n,
            acc as int == byte_len(s@.take(i as int)),
            forall|k: int| 0 <= k < i ==> byte_len(s@.take(k)) != b,
        decreases n - i,
    {
        if acc == b {
            proof {
                lemma_char_at_byte(s@, b as int, i as int);
            }
            return Some(i);
        }
        if acc > b {
            proof {
                assert forall|k: int| 0 <= k <= s@.len() implies byte_len(s@.take(k)) != b by {
                    if k > i {
                        lemma_byte_len_strict(s@, i as int, k);
                    }
                }
            }
            return None;
        }
        proof {
            lemma_byte_len_step(s@, i + 1);
        }
        match acc.checked_add(char_width_of(v[i])) {
            Some(x) => {
                acc = x;
            },
            None => {
                proof {
                    assert forall|k: int| 0 <= k <= s@.len() implies byte_len(s@.take(k)) != b by {
                        if k > i + 1 {
                            lemma_byte_len_strict(s@, i + 1, k);
                        }
                    }
                }
                return None;
            },
        }
        i = i + 1;
    }
    proof {
        assert(s@.take(n as int) == s@);
    }
    if acc == b {
        proof {
            lemma_char_at_byte(s@, b as int, n as int);
        }
        Some(n)
    } else {
        None
    }
}

} // verus!
