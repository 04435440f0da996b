//! Character-level helpers for the small text formats that sysfs and the
//! platform-profile interface use: whitespace trimming, exact comparison,
//! substring search and decimal integer parsing.
use vstd::prelude::*;
use vstd::string::*;

verus! {

/// Unicode `White_Space` code points, the set that `char::is_whitespace`
/// and `str::trim` use.
pub open spec fn is_ws(c: char) -> bool {
    let v = c as u32;
    ||| (0x09 <= v && v <= 0x0D)
    ||| v == 0x20
    ||| v == 0x85
    ||| v == 0xA0
    ||| v == 0x1680
    ||| (0x2000 <= v && v <= 0x200A)
    ||| v == 0x2028
    ||| v == 0x2029
    ||| v == 0x202F
    ||| v == 0x205F
    ||| v == 0x3000
}

/// The sequence with its leading whitespace removed.
pub open spec fn trim_start(s: Seq<char>) -> Seq<char>
    decreases s.len(),
{
    if s.len() > 0 && is_ws(s[0]) {
        trim_start(s.drop_first())
    } else {
        s
    }
}

/// The sequence with its trailing whitespace removed.
pub open spec fn trim_end(s: Seq<char>) -> Seq<char>
    decreases s.len(),
{
    if s.len() > 0 && is_ws(s.last()) {
        trim_end(s.drop_last())
    } else {
        s
    }
}

/// The sequence with whitespace removed at both ends.
pub open spec fn trimmed(s: Seq<char>) -> Seq<char> {
    trim_end(trim_start(s))
}

/// Every character is whitespace.
pub open spec fn all_ws(s: Seq<char>) -> bool {
    forall|i: int| 0 <= i < s.len() ==> is_ws(#[trigger] s[i])
}

proof fn lemma_trim_start_skips_ws(p: Seq<char>, x: Seq<char>)
    requires
        all_ws(p),
    ensures
        trim_start(p + x) == trim_start(x),
    decreases p.len(),
{
    if p.len() > 0 {
        assert((p + x)[0] == p[0]);
        assert((p + x).drop_first() =~= p.drop_first() + x);
        lemma_trim_start_skips_ws(p.drop_first(), x);
    } else {
        assert(p + x =~= x);
    }
}

proof fn lemma_trim_end_skips_ws(x: Seq<char>, q: Seq<char>)
    requires
        all_ws(q),
    ensures
        trim_end(x + q) == trim_end(x),
    decreases q.len(),
{
    if q.len() > 0 {
        assert((x + q).last() == q.last());
        assert((x + q).drop_last() =~= x + q.drop_last());
        lemma_trim_end_skips_ws(x, q.drop_last());
    } else {
        assert(x + q =~= x);
    }
}

proof fn lemma_trim_start_of_ws(x: Seq<char>)
    requires
        all_ws(x),
    ensures
        trim_start(x) == Seq::<char>::empty(),
    decreases x.len(),
{
    if x.len() > 0 {
        lemma_trim_start_of_ws(x.drop_first());
    } else {
        assert(x =~= Seq::<char>::empty());
    }
}

/// Trimming the front of `x + q` leaves `q` whole when `x` holds a
/// character that is not whitespace.
proof fn lemma_trim_start_append(x: Seq<char>, q: Seq<char>)
    requires
        !all_ws(x),
    ensures
        trim_start(x + q) == trim_start(x) + q,
    decreases x.len(),
{
    assert(x.len() > 0);
    assert((x + q)[0] == x[0]);
    if is_ws(x[0]) {
        assert((x + q).drop_first() =~= x.drop_first() + q);
        assert(!all_ws(x.drop_first())) by {
            let k = choose|k: int| 0 <= k < x.len() && !is_ws(#[trigger] x[k]);
            assert(x.drop_first()[k - 1] == x[k]);
        }
        lemma_trim_start_append(x.drop_first(), q);
    }
}

/// Whitespace added at either end does not change what trimming leaves.
pub proof fn lemma_trimmed_ignores_padding(p: Seq<char>, s: Seq<char>, q: Seq<char>)
    requires
        all_ws(p),
        all_ws(q),
    ensures
        trimmed(p + s + q) == trimmed(s),
{
    assert(p + s + q =~= p + (s + q));
    lemma_trim_start_skips_ws(p, s + q);
    if all_ws(s) {
        assert(all_ws(s + q));
        lemma_trim_start_of_ws(s + q);
        lemma_trim_start_of_ws(s);
    } else {
        lemma_trim_start_append(s, q);
        lemma_trim_end_skips_ws(trim_start(s), q);
    }
}

/// Whether `needle` occurs as a contiguous run of `hay`.
pub open spec fn has_infix(hay: Seq<char>, needle: Seq<char>) -> bool {
    exists|i: int| 0 <= i <= hay.len() - needle.len() && #[trigger] hay.subrange(i, i + needle.len()) == needle
}

pub open spec fn is_digit(c: char) -> bool {
    '0' <= c && c <= '9'
}

pub open spec fn digit_value(c: char) -> int {
    (c as u32) - ('0' as u32)
}

pub open spec fn all_digits(s: Seq<char>) -> bool {
    forall|i: int| 0 <= i < s.len() ==> is_digit(#[trigger] s[i])
}

/// The number that a run of decimal digits denotes.
pub open spec fn digits_value(s: Seq<char>) -> int
    decreases s.len(),
{
    if s.len() == 0 {
        0
    } else {
        digits_value(s.drop_last()) * 10 + digit_value(s.last())
    }
}

/// The magnitude that decimal text denotes: one or more digits.
pub open spec fn decimal(s: Seq<char>) -> Option<int> {
    if s.len() > 0 && all_digits(s) {
        Some(digits_value(s))
    } else {
        None
    }
}

/// What `str::parse` gives for an unsigned integer type whose largest value
/// is `max`: an optional `+`, then one or more digits, in range.
pub open spec fn unsigned_text_value(s: Seq<char>, max: int) -> Option<int> {
    let body = if s.len() > 0 && s[0] == '+' { s.drop_first() } else { s };
    match decimal(body) {
        Some(v) => if v <= max { Some(v) } else { None },
        None => None,
    }
}

/// What `str::parse::<i64>` gives: an optional `+` or `-`, then one or more
/// digits, in range.
pub open spec fn i64_text_value(s: Seq<char>) -> Option<int> {
    if s.len() > 0 && s[0] == '-' {
        match decimal(s.drop_first()) {
            Some(v) => if v <= 0x8000_0000_0000_0000 { Some(-v) } else { None },
            None => None,
        }
    } else {
        unsigned_text_value(s, i64::MAX as int)
    }
}

proof fn lemma_digits_value_nonneg(s: Seq<char>)
    requires
        all_digits(s),
    ensures
        digits_value(s) >= 0,
    decreases s.len(),
{
    if s.len() > 0 {
        lemma_digits_value_nonneg(s.drop_last());
    }
}

/// What decimal text denotes is never negative.
pub proof fn lemma_decimal_nonneg(s: Seq<char>)
    ensures
        decimal(s) matches Some(v) ==> v >= 0,
{
    if s.len() > 0 && all_digits(s) {
        lemma_digits_value_nonneg(s);
    }
}

/// What `unsigned_text_value` gives lies within `[0, max]`.
pub proof fn lemma_unsigned_text_value_in_range(s: Seq<char>, max: int)
    ensures
        unsigned_text_value(s, max) matches Some(v) ==> 0 <= v <= max,
{
    let body = if s.len() > 0 && s[0] == '+' { s.drop_first() } else { s };
    lemma_decimal_nonneg(body);
}

/// What `i64_text_value` gives lies within the range of `i64`.
pub proof fn lemma_i64_text_value_in_range(s: Seq<char>)
    ensures
        i64_text_value(s) matches Some(v) ==> i64::MIN <= v <= i64::MAX,
{
    lemma_decimal_nonneg(s.drop_first());
    let body = if s.len() > 0 && s[0] == '+' { s.drop_first() } else { s };
    lemma_decimal_nonneg(body);
}

/// What `str::to_lowercase` gives for a text: Unicode's lowercase mapping.
pub uninterp spec fn lowercase(s: Seq<char>) -> Seq<char>;

/// Every character is ASCII.
pub open spec fn all_ascii(s: Seq<char>) -> bool {
    forall|i: int| 0 <= i < s.len() ==> (#[trigger] s[i] as u32) < 128
}

/// An ASCII character with `A`-`Z` lowered to `a`-`z`.
pub open spec fn ascii_lower_char(c: char) -> char {
    if 'A' <= c && c <= 'Z' {
        ((c as u32) + 32) as char
    } else {
        c
    }
}

/// A text with `A`-`Z` lowered to `a`-`z` and every other character kept.
pub open spec fn ascii_lower(s: Seq<char>) -> Seq<char> {
    s.map_values(|c: char| ascii_lower_char(c))
}

/// `str::to_lowercase`: the text with every character replaced by its
/// Unicode lowercase mapping. The contract names the result `lowercase`, a
/// function of the text, and states the mapping only for ASCII text, where
/// std documents it: `A`-`Z` become `a`-`z` and every other character stays.
/// For other text the mapping is not spelled out.
#[verifier::external_body]
pub(crate) fn to_lowercase(s: &str) -> (r: String)
    ensures
        r@ == lowercase(s@),
        all_ascii(s@) ==> r@ == ascii_lower(s@),
{
    s.to_lowercase()
}

/// Whether `c` is whitespace in the sense of `char::is_whitespace`.
pub fn is_whitespace(c: char) -> (r: bool)
    ensures
        r == is_ws(c),
{
    let v = c as u32;
    (0x09 <= v && v <= 0x0D) || v == 0x20 || v == 0x85 || v == 0xA0 || v == 0x1680 || (0x2000 <= v
        && v <= 0x200A) || v == 0x2028 || v == 0x2029 || v == 0x202F || v == 0x205F || v == 0x3000
}

/// `s` with whitespace removed at both ends, as `str::trim` does.
pub fn trim(s: &str) -> (r: &str)
    ensures
        r@ == trimmed(s@),
{
    let n = s.unicode_len();
    let mut i: usize = 0;
    assert(s@.subrange(0, n as int) =~= s@);
    while i < n && is_whitespace(s.get_char(i))
        invariant
            n == s@.len(),
            i <= n,
            trim_start(s@) == trim_start(s@.subrange(i as int, n as int)),
        decreases n - i,
    {
        proof {
            let t = s@.subrange(i as int, n as int);
            assert(t.drop_first() =~= s@.subrange(i + 1, n as int));
        }
        i = i + 1;
    }
    let ghost front = s@.subrange(i as int, n as int);
    assert(trim_start(front) == front);
    let mut j: usize = n;
    while j > i && is_whitespace(s.get_char(j - 1))
        invariant
            n == s@.len(),
            i <= j <= n,
            front == s@.subrange(i as int, n as int),
            trim_end(front) == trim_end(s@.subrange(i as int, j as int)),
        decreases j - i,
    {
        proof {
            let t = s@.subrange(i as int, j as int);
            assert(t.drop_last() =~= s@.subrange(i as int, j - 1));
        }
        j = j - 1;
    }
    s.substring_char(i, j)
}

/// Whether two strings hold the same characters.
pub fn same_text(a: &str, b: &str) -> (r: bool)
    ensures
        r == (a@ == b@),
{
    let n = a.unicode_len();
    let m = b.unicode_len();
    if n != m {
        return false;
    }
    let mut i: usize = 0;
    while i < n
        invariant
            n == a@.len(),
            m == b@.len(),
            n == m,
            i <= n,
            forall|k: int| 0 <= k < i ==> a@[k] == b@[k],
        decreases n - i,
    {
        if a.get_char(i) != b.get_char(i) {
            return false;
        }
        i = i + 1;
    }
    assert(a@ =~= b@);
    true
}

/// Whether `hay` holds `needle` as a contiguous run, as `str::contains` does
/// for a string pattern.
pub fn contains_text(hay: &str, needle: &str) -> (r: bool)
    ensures
        r == has_infix(hay@, needle@),
{
    let n = hay.unicode_len();
    let m = needle.unicode_len();
    if m > n {
        return false;
    }
    let last = n - m;
    let mut i: usize = 0;
    loop
        invariant
            n == hay@.len(),
            m == needle@.len(),
            m <= n,
            last == n - m,
            i <= last,
            forall|p: int| 0 <= p < i ==> #[trigger] hay@.subrange(p, p + m) != needle@,
        ensures
            forall|p: int| 0 <= p <= last ==> #[trigger] hay@.subrange(p, p + m) != needle@,
        decreases last - i,
    {
        let mut k: usize = 0;
        let mut matched = true;
        while k < m
            invariant
                n == hay@.len(),
                m == needle@.len(),
                i + m <= n,
                k <= m,
                matched ==> forall|q: int| 0 <= q < k ==> hay@[i + q] == needle@[q],
                !matched ==> hay@.subrange(i as int, i + m) != needle@,
            decreases m - k,
        {
            if matched && hay.get_char(i + k) != needle.get_char(k) {
                matched = false;
                assert(hay@.subrange(i as int, i + m)[k as int] != needle@[k as int]);
            }
            k = k + 1;
        }
        if matched {
            assert(hay@.subrange(i as int, i + m) =~= needle@);
            return true;
        }
        if i == last {
            break;
        }
        i = i + 1;
    }
    proof {
        if has_infix(hay@, needle@) {
            let p = choose|p: int| 0 <= p <= hay@.len() - needle@.len() && #[trigger] hay@.subrange(p, p + needle@.len()) == needle@;
            assert(hay@.subrange(p, p + m) == needle@);
        }
    }
    false
}

/// Whether `s` starts with `prefix`.
pub fn starts_with_text(s: &str, prefix: &str) -> (r: bool)
    ensures
        r == (prefix@.len() <= s@.len() && s@.subrange(0, prefix@.len() as int) == prefix@),
{
    let n = s.unicode_len();
    let m = prefix.unicode_len();
    if m > n {
        return false;
    }
    let mut k: usize = 0;
    while k < m
        invariant
            n == s@.len(),
            m == prefix@.len(),
            m <= n,
            k <= m,
            forall|q: int| 0 <= q < k ==> s@[q] == prefix@[q],
        decreases m - k,
    {
        if s.get_char(k) != prefix.get_char(k) {
            assert(s@.subrange(0, m as int)[k as int] != prefix@[k as int]);
            return false;
        }
        k = k + 1;
    }
    assert(s@.subrange(0, m as int) =~= prefix@);
    true
}

/// The value of the digits of `s` from position `start` on, when there is at
/// least one, all are digits and the value fits in a `u64`.
fn parse_digits(s: &str, start: usize) -> (r: Option<u64>)
    requires
        start <= s@.len(),
    ensures
        r == (match decimal(s@.subrange(start as int, s@.len() as int)) {
            Some(v) => if v <= u64::MAX { Some(v as u64) } else { None },
            None => None,
        }),
{
    let n = s.unicode_len();
    let ghost body = s@.subrange(start as int, n as int);
    if start == n {
        return None;
    }
    let mut acc: u64 = 0;
    let mut i: usize = start;
    let mut overflow = false;
    while i < n
        invariant
            n == s@.len(),
            body == s@.subrange(start as int, n as int),
            start <= i <= n,
            all_digits(body.subrange(0, i - start)),
            !overflow ==> acc as int == digits_value(body.subrange(0, i - start)),
            overflow ==> digits_value(body.subrange(0, i - start)) > u64::MAX,
        decreases n - i,
    {
        let c = s.get_char(i);
        if !('0' <= c && c <= '9') {
            assert(body[i - start] == c);
            return None;
        }
        let d = (c as u32 - '0' as u32) as u64;
        let ghost pre = body.subrange(0, i - start);
        let ghost next = body.subrange(0, i + 1 - start);
        proof {
            assert(next.drop_last() =~= pre);
            assert(next.last() == c);
            assert(all_digits(next)) by {
                assert forall|q: int| 0 <= q < next.len() implies is_digit(#[trigger] next[q]) by {
                    if q < pre.len() {
                        assert(next[q] == pre[q]);
                    }
                }
            }
            lemma_digits_value_nonneg(pre);
        }
        if !overflow {
            if acc > (u64::MAX - d) / 10 {
                overflow = true;
                assert(digits_value(next) > u64::MAX) by (nonlinear_arith)
                    requires
                        digits_value(next) == acc * 10 + d,
                        acc > (u64::MAX - d) / 10,
                        0 <= d <= 9,
                ;
            } else {
                assert(acc * 10 + d <= u64::MAX) by (nonlinear_arith)
                    requires
                        acc <= (u64::MAX - d) / 10,
                        0 <= d <= 9,
                ;
                acc = acc * 10 + d;
            }
        } else {
            assert(digits_value(next) > u64::MAX) by (nonlinear_arith)
                requires
                    digits_value(next) == digits_value(pre) * 10 + digit_value(c),
                    digits_value(pre) > u64::MAX,
                    0 <= digit_value(c) <= 9,
            ;
        }
        i = i + 1;
    }
    assert(body.subrange(0, n - start) =~= body);
    if overflow {
        None
    } else {
        Some(acc)
    }
}

/// `s` read as a `u64` the way `str::parse::<u64>` reads it.
pub fn parse_u64(s: &str) -> (r: Option<u64>)
    ensures
        r == (match unsigned_text_value(s@, u64::MAX as int) {
            Some(v) => Some(v as u64),
            None => None,
        }),
{
    let n = s.unicode_len();
    if n > 0 && s.get_char(0) == '+' {
        assert(s@.drop_first() =~= s@.subrange(1, n as int));
        parse_digits(s, 1)
    } else {
        assert(s@ =~= s@.subrange(0, n as int));
        parse_digits(s, 0)
    }
}

/// `s` read as a `u8` the way `str::parse::<u8>` reads it.
pub fn parse_u8(s: &str) -> (r: Option<u8>)
    ensures
        r == (match unsigned_text_value(s@, u8::MAX as int) {
            Some(v) => Some(v as u8),
            None => None,
        }),
{
    let ghost body = if s@.len() > 0 && s@[0] == '+' { s@.drop_first() } else { s@ };
    match parse_u64(s) {
        Some(v) => {
            proof {
                lemma_decimal_nonneg(body);
            }
            assert(decimal(body) == Some(v as int));
            if v <= 255 {
                Some(v as u8)
            } else {
                None
            }
        },
        None => {
            proof {
                if let Some(v) = decimal(body) {
                    assert(v > u64::MAX);
                }
            }
            None
        },
    }
}

/// `s` read as an `i64` the way `str::parse::<i64>` reads it.
pub fn parse_i64(s: &str) -> (r: Option<i64>)
    ensures
        r == (match i64_text_value(s@) {
            Some(v) => Some(v as i64),
            None => None,
        }),
{
    let n = s.unicode_len();
    if n > 0 && s.get_char(0) == '-' {
        let ghost body = s@.drop_first();
        assert(body =~= s@.subrange(1, n as int));
        match parse_digits(s, 1) {
            Some(m) => {
                proof {
                    lemma_decimal_nonneg(body);
                }
                assert(decimal(body) == Some(m as int));
                if m <= 0x8000_0000_0000_0000 {
                    if m == 0x8000_0000_0000_0000 {
                        Some(i64::MIN)
                    } else {
                        let v: i64 = m as i64;
                        Some(-v)
                    }
                } else {
                    None
                }
            },
            None => {
                proof {
                    if let Some(v) = decimal(body) {
                        assert(v > u64::MAX);
                    }
                }
                None
            },
        }
    } else {
        let ghost body = if s@.len() > 0 && s@[0] == '+' { s@.drop_first() } else { s@ };
        match parse_u64(s) {
            Some(v) => {
                proof {
                lemma_decimal_nonneg(body);
            }
            assert(decimal(body) == Some(v as int));
                if v <= i64::MAX as u64 {
                    Some(v as i64)
                } else {
                    None
                }
            },
            None => {
                proof {
                    if let Some(v) = decimal(body) {
                        assert(v > u64::MAX);
                    }
                }
                None
            },
        }
    }
}

} // verus!
