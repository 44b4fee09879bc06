//! Character-level text helpers shared by the parsers of the library.
use vstd::prelude::*;

verus! {

broadcast use vstd::string::axiom_spec_iter;

/// Appends one character to a `String`.
///
/// Trusted: calls `String::push`, whose documentation states that it
/// appends the given `char` to the end of the string; the contract claims
/// exactly that of the character view.
#[verifier::external_body]
pub(crate) fn push_char(s: &mut String, c: char)
    ensures
        final(s)@ == old(s)@.push(c),
{
    s.push(c);
}

/// The characters of a string slice, in order.
pub fn chars_of(s: &str) -> (v: Vec<char>)
    ensures
        v@ == s@,
{
    let mut v: Vec<char> = Vec::new();
    for c in it: s.chars()
        invariant
            v@ == it.seq().take(it.index() as int),
            it.seq() == s@,
    {
        v.push(c);
    }
    v
}

/// A `String` holding the characters `v[start..end]`.
pub fn string_of(v: &Vec<char>, start: usize, end: usize) -> (s: String)
    requires
        start <= end <= v.len(),
    ensures
        s@ == v@.subrange(start as int, end as int),
{
    let mut s = String::new();
    let mut i = start;
    while i < end
        invariant
            start <= i <= end <= v.len(),
            s@ == v@.subrange(start as int, i as int),
        decreases end - i,
    {
        push_char(&mut s, v[i]);
        i = i + 1;
    }
    s
}

} // verus!

verus! {

/// The Unicode `White_Space` property, which `char::is_whitespace`
/// and `str::trim` use.
pub open spec fn is_ws(c: char) -> bool {
    ||| ('\u{9}' <= c && c <= '\u{d}')
    ||| c == ' '
    ||| c == '\u{85}'
    ||| c == '\u{a0}'
    ||| c == '\u{1680}'
    ||| ('\u{2000}' <= c && c <= '\u{200a}')
    ||| c == '\u{2028}'
    ||| c == '\u{2029}'
    ||| c == '\u{202f}'
    ||| c == '\u{205f}'
    ||| c == '\u{3000}'
}

pub fn char_is_ws(c: char) -> (b: bool)
    ensures
        b == is_ws(c),
{
    ('\u{9}' <= c && c <= '\u{d}') || c == ' ' || c == '\u{85}' || c == '\u{a0}' || c
        == '\u{1680}' || ('\u{2000}' <= c && c <= '\u{200a}') || c == '\u{2028}' || c
        == '\u{2029}' || c == '\u{202f}' || c == '\u{205f}' || c == '\u{3000}'
}

/// `s` without leading white space.
pub open spec fn trim_start(s: Seq<char>) -> Seq<char>
    decreases s.len(),
{
    if s.len() > 0 && is_ws(s[0]) {
        trim_start(s.drop_first())
    } else {
        s
    }
}

/// `s` without trailing white space.
pub open spec fn trim_end(s: Seq<char>) -> Seq<char>
    decreases s.len(),
{
    if s.len() > 0 && is_ws(s.last()) {
        trim_end(s.drop_last())
    } else {
        s
    }
}

/// `s` without leading and trailing white space (`str::trim`).
pub open spec fn trim(s: Seq<char>) -> Seq<char> {
    trim_end(trim_start(s))
}

/// Every character of `s` is white space.
pub open spec fn all_ws(s: Seq<char>) -> bool {
    forall|i: int| 0 <= i < s.len() ==> is_ws(#[trigger] s[i])
}

proof fn lemma_trim_start_skip(s: Seq<char>, k: int)
    requires
        0 <= k <= s.len(),
        all_ws(s.subrange(0, k)),
        k == s.len() || !is_ws(s[k]),
    ensures
        trim_start(s) == s.subrange(k, s.len() as int),
    decreases k,
{
    if k == 0 {
        assert(s.subrange(0, s.len() as int) =~= s);
    } else {
        assert(is_ws(s.subrange(0, k)[0]));
        let t = s.drop_first();
        assert forall|i: int| 0 <= i < k - 1 implies is_ws(#[trigger] t.subrange(0, k - 1)[i]) by {
            assert(t.subrange(0, k - 1)[i] == s.subrange(0, k)[i + 1]);
        }
        lemma_trim_start_skip(t, k - 1);
        assert(t.subrange(k - 1, t.len() as int) =~= s.subrange(k, s.len() as int));
    }
}

proof fn lemma_trim_end_skip(s: Seq<char>, k: int)
    requires
        0 <= k <= s.len(),
        all_ws(s.subrange(k, s.len() as int)),
        k == 0 || !is_ws(s[k - 1]),
    ensures
        trim_end(s) == s.subrange(0, k),
    decreases s.len() - k,
{
    if k == s.len() {
        assert(s.subrange(0, s.len() as int) =~= s);
    } else {
        assert(is_ws(s.subrange(k, s.len() as int)[s.len() - k - 1]));
        let t = s.drop_last();
        assert forall|i: int| 0 <= i < t.len() - k implies is_ws(
            #[trigger] t.subrange(k, t.len() as int)[i],
        ) by {
            assert(t.subrange(k, t.len() as int)[i] == s.subrange(k, s.len() as int)[i]);
        }
        lemma_trim_end_skip(t, k);
        assert(t.subrange(0, k) =~= s.subrange(0, k));
    }
}

/// Trimming white space `w` before and `z` after a text `v` that neither
/// starts nor ends with white space gives back `v`.
pub proof fn lemma_trim_padded(w: Seq<char>, v: Seq<char>, z: Seq<char>)
    requires
        all_ws(w),
        all_ws(z),
        v.len() > 0,
        !is_ws(v[0]),
        !is_ws(v.last()),
    ensures
        trim(w + v + z) == v,
{
    let s = w + v + z;
    assert(s.subrange(0, w.len() as int) =~= w);
    assert(s[w.len() as int] == v[0]);
    lemma_trim_start_skip(s, w.len() as int);
    let t = s.subrange(w.len() as int, s.len() as int);
    assert(t =~= v + z);
    assert(t.subrange(v.len() as int, t.len() as int) =~= z);
    assert(t[v.len() - 1] == v.last());
    lemma_trim_end_skip(t, v.len() as int);
    assert(t.subrange(0, v.len() as int) =~= v);
}

/// The bounds `(a, b)` such that `v[a..b]` is `v[lo..hi]` trimmed.
pub fn trim_bounds(v: &Vec<char>, lo: usize, hi: usize) -> (r: (usize, usize))
    requires
        lo <= hi <= v.len(),
    ensures
        lo <= r.0 <= r.1 <= hi,
        v@.subrange(r.0 as int, r.1 as int) == trim(v@.subrange(lo as int, hi as int)),
{
    let ghost s = v@.subrange(lo as int, hi as int);
    let mut a = lo;
    while a < hi && char_is_ws(v[a])
        invariant
            lo <= a <= hi <= v.len(),
            s == v@.subrange(lo as int, hi as int),
            all_ws(v@.subrange(lo as int, a as int)),
        decreases hi - a,
    {
        assert(v@.subrange(lo as int, a + 1) =~= v@.subrange(lo as int, a as int).push(v@[a as int]));
        a = a + 1;
    }
    proof {
        assert(s.subrange(0, a - lo) =~= v@.subrange(lo as int, a as int));
        lemma_trim_start_skip(s, a - lo);
        assert(s.subrange(a - lo, s.len() as int) =~= v@.subrange(a as int, hi as int));
    }
    let ghost t = v@.subrange(a as int, hi as int);
    let mut b = hi;
    while b > a && char_is_ws(v[b - 1])
        invariant
            lo <= a <= b <= hi <= v.len(),
            t == v@.subrange(a as int, hi as int),
            all_ws(v@.subrange(b as int, hi as int)),
        decreases b - a,
    {
        assert(v@.subrange(b - 1, hi as int) =~= seq![v@[b - 1]] + v@.subrange(b as int, hi as int));
        b = b - 1;
    }
    proof {
        assert(t.subrange(b - a, t.len() as int) =~= v@.subrange(b as int, hi as int));
        lemma_trim_end_skip(t, b - a);
        assert(t.subrange(0, b - a) =~= v@.subrange(a as int, b as int));
    }
    (a, b)
}

/// Index of the first occurrence of `c` in `s`, if any.
pub open spec fn find_char(s: Seq<char>, c: char) -> Option<int>
    decreases s.len(),
{
    if s.len() == 0 {
        None
    } else if s[0] == c {
        Some(0)
    } else {
        match find_char(s.drop_first(), c) {
            Some(i) => Some(i + 1),
            None => None,
        }
    }
}

pub proof fn lemma_find_char_props(s: Seq<char>, c: char)
    ensures
        match find_char(s, c) {
            Some(i) => 0 <= i < s.len() && s[i] == c && forall|j: int|
                0 <= j < i ==> s[j] != c,
            None => forall|j: int| 0 <= j < s.len() ==> s[j] != c,
        },
    decreases s.len(),
{
    if s.len() > 0 {
        lemma_find_char_props(s.drop_first(), c);
        if s[0] != c {
            match find_char(s.drop_first(), c) {
                Some(i) => {
                    assert forall|j: int| 0 <= j < i + 1 implies s[j] != c by {
                        if j > 0 {
                            assert(s[j] == s.drop_first()[j - 1]);
                        }
                    }
                },
                None => {
                    assert forall|j: int| 0 <= j < s.len() implies s[j] != c by {
                        if j > 0 {
                            assert(s[j] == s.drop_first()[j - 1]);
                        }
                    }
                },
            }
        }
    }
}

proof fn lemma_find_char_at(s: Seq<char>, c: char, i: int)
    requires
        0 <= i <= s.len(),
        forall|j: int| 0 <= j < i ==> s[j] != c,
        i == s.len() || s[i] == c,
    ensures
        find_char(s, c) == (if i == s.len() { None::<int> } else { Some(i) }),
    decreases i,
{
    if i > 0 {
        let t = s.drop_first();
        assert forall|j: int| 0 <= j < i - 1 implies t[j] != c by {
            assert(t[j] == s[j + 1]);
        }
        lemma_find_char_at(t, c, i - 1);
    }
}

/// Position of the first `c` in `v[lo..hi]`, relative to `lo`.
pub fn find_char_in(v: &Vec<char>, lo: usize, hi: usize, c: char) -> (r: Option<usize>)
    requires
        lo <= hi <= v.len(),
    ensures
        match r {
            Some(i) => find_char(v@.subrange(lo as int, hi as int), c) == Some(i as int),
            None => find_char(v@.subrange(lo as int, hi as int), c) == None::<int>,
        },
{
    let ghost s = v@.subrange(lo as int, hi as int);
    let mut i = lo;
    while i < hi
        invariant
            lo <= i <= hi <= v.len(),
            s == v@.subrange(lo as int, hi as int),
            forall|j: int| 0 <= j < i - lo ==> s[j] != c,
        decreases hi - i,
    {
        if v[i] == c {
            proof {
                lemma_find_char_at(s, c, i - lo);
            }
            return Some(i - lo);
        }
        i = i + 1;
    }
    proof {
        lemma_find_char_at(s, c, s.len() as int);
    }
    None
}

/// `v[lo..hi]` equals the characters of `lit`.
pub fn eq_lit(v: &Vec<char>, lo: usize, hi: usize, lit: &[char]) -> (b: bool)
    requires
        lo <= hi <= v.len(),
    ensures
        b == (v@.subrange(lo as int, hi as int) == lit@),
{
    if hi - lo != lit.len() {
        return false;
    }
    let mut i: usize = 0;
    while i < lit.len()
        invariant
            lo <= hi <= v.len(),
            hi - lo == lit@.len(),
            i <= lit@.len(),
            forall|j: int| 0 <= j < i ==> v@[lo + j] == lit@[j],
        decreases lit.len() - i,
    {
        if v[lo + i] != lit[i] {
            assert(v@.subrange(lo as int, hi as int)[i as int] != lit@[i as int]);
            return false;
        }
        i = i + 1;
    }
    assert(v@.subrange(lo as int, hi as int) =~= lit@);
    true
}

/// `v[lo..hi]` starts with the characters of `lit`.
pub fn starts_with_lit(v: &Vec<char>, lo: usize, hi: usize, lit: &[char]) -> (b: bool)
    requires
        lo <= hi <= v.len(),
    ensures
        b == (lit@.len() <= hi - lo && v@.subrange(lo as int, lo + lit@.len()) == lit@),
{
    if hi - lo < lit.len() {
        return false;
    }
    eq_lit(v, lo, lo + lit.len(), lit)
}

} // verus!

verus! {

pub open spec fn is_digit(c: char) -> bool {
    '0' <= c && c <= '9'
}

pub open spec fn digit_val(c: char) -> int {
    (c as int) - ('0' as int)
}

pub open spec fn all_digits(s: Seq<char>) -> bool {
    forall|i: int| 0 <= i < s.len() ==> is_digit(#[trigger] s[i])
}

/// The decimal value of a string of digits.
pub open spec fn digits_value(s: Seq<char>) -> int
    decreases s.len(),
{
    if s.len() == 0 {
        0
    } else {
        digits_value(s.drop_last()) * 10 + digit_val(s.last())
    }
}

/// The integer that Rust's `FromStr` for integers reads from `s`, before
/// the range check: an optional `+` (or `-` where negatives are allowed)
/// followed by at least one ASCII digit, and nothing else.
pub open spec fn parse_int_spec(s: Seq<char>, allow_neg: bool) -> Option<int> {
    if s.len() > 0 && (s[0] == '+' || (allow_neg && s[0] == '-')) {
        let d = s.drop_first();
        if d.len() > 0 && all_digits(d) {
            Some(if s[0] == '-' { -digits_value(d) } else { digits_value(d) })
        } else {
            None
        }
    } else if s.len() > 0 && all_digits(s) {
        Some(digits_value(s))
    } else {
        None
    }
}

/// What `str::parse` yields for an integer type with range `[min, max]`.
pub open spec fn parse_in_range(s: Seq<char>, allow_neg: bool, min: int, max: int) -> Option<int> {
    match parse_int_spec(s, allow_neg) {
        Some(x) => if min <= x <= max { Some(x) } else { None },
        None => None,
    }
}

proof fn lemma_digits_value_nonneg(s: Seq<char>)
    requires
        all_digits(s),
    ensures
        digits_value(s) >= 0,
    decreases s.len(),
{
    if s.len() > 0 {
        assert(is_digit(s[s.len() - 1]));
        lemma_digits_value_nonneg(s.drop_last());
    }
}

proof fn lemma_digits_value_mono(s: Seq<char>, k: int)
    requires
        all_digits(s),
        0 <= k <= s.len(),
    ensures
        digits_value(s.take(k)) <= digits_value(s),
    decreases s.len() - k,
{
    if k < s.len() {
        let t = s.drop_last();
        assert(t.take(k) =~= s.take(k));
        assert(is_digit(s[s.len() - 1]));
        lemma_digits_value_nonneg(t);
        lemma_digits_value_mono(t, k);
    } else {
        assert(s.take(k) =~= s);
    }
}

/// Parse `v[lo..hi]` as an integer in `[min, max]`, as `str::parse` does
/// for Rust's integer types.
pub fn parse_int_in(v: &Vec<char>, lo: usize, hi: usize, allow_neg: bool, min: i64, max: i64) -> (r:
    Option<i64>)
    requires
        lo <= hi <= v.len(),
        min <= 0 <= max,
        max <= u32::MAX,
        min >= i32::MIN,
    ensures
        match r {
            Some(x) => parse_in_range(v@.subrange(lo as int, hi as int), allow_neg, min as int, max as int)
                == Some(x as int),
            None => parse_in_range(v@.subrange(lo as int, hi as int), allow_neg, min as int, max as int)
                == None::<int>,
        },
{
    let ghost s = v@.subrange(lo as int, hi as int);
    if lo == hi {
        return None;
    }
    let mut neg = false;
    let mut start = lo;
    if v[lo] == '+' || (allow_neg && v[lo] == '-') {
        neg = v[lo] == '-';
        start = lo + 1;
        if start == hi {
            return None;
        }
    }
    let ghost d = v@.subrange(start as int, hi as int);
    assert(start > lo ==> d =~= s.drop_first());
    assert(start == lo ==> d =~= s);
    let mut acc: i64 = 0;
    let mut i = start;
    #[verifier::loop_isolation(false)]
    while i < hi
        invariant
            lo <= start <= i <= hi <= v.len(),
            d == v@.subrange(start as int, hi as int),
            all_digits(d.take(i - start)),
            acc == digits_value(d.take(i - start)),
            0 <= acc <= u32::MAX + 1,
        decreases hi - i,
    {
        let c = v[i];
        if !('0' <= c && c <= '9') {
            assert(!all_digits(d)) by {
                assert(d[i - start] == c);
            }
            return None;
        }
        let dv = (c as u32 - '0' as u32) as i64;
        assert(d.take(i + 1 - start).drop_last() =~= d.take(i - start));
        assert(d.take(i + 1 - start).last() == c);
        assert(all_digits(d.take(i + 1 - start))) by {
            assert forall|j: int| 0 <= j < i + 1 - start implies is_digit(
                #[trigger] d.take(i + 1 - start)[j],
            ) by {
                if j < i - start {
                    assert(d.take(i + 1 - start)[j] == d.take(i - start)[j]);
                }
            }
        }
        acc = acc * 10 + dv;
        i = i + 1;
        if acc > u32::MAX as i64 {
            proof {
                if all_digits(d) {
                    lemma_digits_value_mono(d, i - start);
                }
            }
            return None;
        }
    }
    assert(d.take(hi - start) =~= d);
    let x: i64 = if neg { -acc } else { acc };
    if x < min || x > max {
        None
    } else {
        Some(x)
    }
}

} // verus!

verus! {

/// Two character vectors are equal.
pub fn vec_eq(a: &Vec<char>, b: &Vec<char>) -> (r: bool)
    ensures
        r == (a@ == b@),
{
    if a.len() != b.len() {
        return false;
    }
    let mut i: usize = 0;
    while i < a.len()
        invariant
            a.len() == b.len(),
            i <= a.len(),
            forall|j: int| 0 <= j < i ==> a@[j] == b@[j],
        decreases a.len() - i,
    {
        if a[i] != b[i] {
            return false;
        }
        i = i + 1;
    }
    assert(a@ =~= b@);
    true
}

/// Two string slices hold the same characters.
pub fn str_eq(a: &str, b: &str) -> (r: bool)
    ensures
        r == (a@ == b@),
{
    vec_eq(&chars_of(a), &chars_of(b))
}

/// `v[lo..hi]` equals the characters of the string slice `lit`.
pub fn range_eq_str(v: &Vec<char>, lo: usize, hi: usize, lit: &str) -> (b: bool)
    requires
        lo <= hi <= v.len(),
    ensures
        b == (v@.subrange(lo as int, hi as int) == lit@),
{
    let w = chars_of(lit);
    eq_lit(v, lo, hi, w.as_slice())
}

} // verus!

verus! {

pub open spec fn digit_char(d: int) -> char {
    (d + '0' as int) as char
}

/// The decimal representation of `n`, without leading zeros.
pub open spec fn decimal(n: nat) -> Seq<char>
    decreases n,
{
    if n < 10 {
        seq![digit_char(n as int)]
    } else {
        decimal(n / 10).push(digit_char((n % 10) as int))
    }
}

/// The decimal representation of `n` is a non-empty string of digits
/// that reads back as `n`.
pub proof fn lemma_decimal_reads_back(n: nat)
    ensures
        decimal(n).len() > 0,
        all_digits(decimal(n)),
        digits_value(decimal(n)) == n,
    decreases n,
{
    let d = (n % 10) as int;
    assert(digit_char(d) as int == d + '0' as int);
    assert(digit_val(digit_char(d)) == d);
    if n < 10 {
        let s = decimal(n);
        assert(s.drop_last() =~= Seq::<char>::empty());
        assert(s.last() == digit_char(n as int));
        assert(digits_value(Seq::<char>::empty()) == 0);
        assert(digits_value(s) == digits_value(s.drop_last()) * 10 + digit_val(s.last()));
        assert(n % 10 == n);
    } else {
        lemma_decimal_reads_back(n / 10);
        let s = decimal(n);
        assert(s.drop_last() =~= decimal(n / 10));
        assert(s.last() == digit_char(d));
        assert(digits_value(s) == digits_value(decimal(n / 10)) * 10 + d);
        assert forall|i: int| 0 <= i < s.len() implies is_digit(#[trigger] s[i]) by {
            if i < s.len() - 1 {
                assert(s[i] == decimal(n / 10)[i]);
            }
        }
    }
}

fn digit_to_char(d: u32) -> (c: char)
    requires
        d < 10,
    ensures
        c == digit_char(d as int),
{
    let b: u8 = (d as u8) + 48;
    b as char
}

/// Append the decimal representation of `n`.
pub fn push_decimal(s: &mut String, n: u32)
    ensures
        final(s)@ == old(s)@ + decimal(n as nat),
    decreases n,
{
    if n < 10 {
        push_char(s, digit_to_char(n));
        assert(decimal(n as nat) =~= seq![digit_char(n as int)]);
    } else {
        push_decimal(s, n / 10);
        push_char(s, digit_to_char(n % 10));
    }
}

} // verus!

verus! {

/// The first position of `key` among the keys of an association list.
pub open spec fn assoc_index(s: Seq<(Seq<char>, Seq<char>)>, key: Seq<char>) -> Option<int> {
    if exists|i: int| 0 <= i < s.len() && s[i].0 == key {
        Some(
            choose|i: int|
                0 <= i < s.len() && s[i].0 == key && forall|j: int| 0 <= j < i ==> s[j].0 != key,
        )
    } else {
        None
    }
}

/// Map insertion on an association list: replace the value of an existing
/// key, or append a new entry.
pub open spec fn assoc_insert(
    s: Seq<(Seq<char>, Seq<char>)>,
    key: Seq<char>,
    val: Seq<char>,
) -> Seq<(Seq<char>, Seq<char>)> {
    match assoc_index(s, key) {
        Some(i) => s.update(i, (key, val)),
        None => s.push((key, val)),
    }
}

/// The value of an association list of strings.
pub open spec fn assoc_view(v: Seq<(String, String)>) -> Seq<(Seq<char>, Seq<char>)> {
    v.map_values(|p: (String, String)| (p.0@, p.1@))
}

/// Set `key` to `val` in an association list, replacing the value of the
/// first entry with that key, or appending an entry.
pub fn assoc_set(list: &mut Vec<(String, String)>, key: String, val: String)
    ensures
        assoc_view(final(list)@) == assoc_insert(assoc_view(old(list)@), key@, val@),
{
    let ghost s = assoc_view(old(list)@);
    let mut i: usize = 0;
    while i < list.len()
        invariant
            i <= list.len(),
            list@ == old(list)@,
            s == assoc_view(list@),
            forall|j: int| 0 <= j < i ==> s[j].0 != key@,
        decreases list.len() - i,
    {
        if list[i].0 == key {
            assert(exists|k: int| 0 <= k < s.len() && s[k].0 == key@) by {
                assert(s[i as int].0 == key@);
            }
            let ghost c = choose|k: int|
                0 <= k < s.len() && s[k].0 == key@ && forall|j: int| 0 <= j < k ==> s[j].0 != key@;
            assert(c == i) by {
                if c < i {
                    assert(s[c].0 != key@);
                }
                if c > i {
                    assert(s[i as int].0 != key@);
                }
            }
            list.set(i, (key, val));
            proof {
                assert(assoc_view(list@) =~= assoc_insert(s, key@, val@));
            }
            return;
        }
        i = i + 1;
    }
    list.push((key, val));
    assert(assoc_view(list@) =~= s.push((key@, val@)));
}

} // verus!

verus! {

/// The ASCII lowercase form of a character.
pub open spec fn ascii_lower(c: char) -> char {
    if 'A' <= c && c <= 'Z' {
        ((c as u32) + 32) as char
    } else {
        c
    }
}

pub open spec fn ascii_lower_seq(s: Seq<char>) -> Seq<char> {
    Seq::new(s.len(), |i: int| ascii_lower(s[i]))
}

/// The ASCII lowercase form of `c`.
pub fn lower_char(c: char) -> (r: char)
    ensures
        r == ascii_lower(c),
{
    if 'A' <= c && c <= 'Z' {
        let u: u8 = (c as u8) + 32;
        u as char
    } else {
        c
    }
}

/// The ASCII lowercase form of every character of `v`.
pub fn lower_vec(v: &Vec<char>) -> (r: Vec<char>)
    ensures
        r@ == ascii_lower_seq(v@),
{
    let mut r: Vec<char> = Vec::new();
    let mut i: usize = 0;
    while i < v.len()
        invariant
            i <= v.len(),
            r@ == ascii_lower_seq(v@.take(i as int)),
        decreases v.len() - i,
    {
        r.push(lower_char(v[i]));
        i = i + 1;
        assert(r@ =~= ascii_lower_seq(v@.take(i as int)));
    }
    assert(v@.take(v.len() as int) =~= v@);
    r
}

/// ASCII case-insensitive equality (`str::eq_ignore_ascii_case`).
pub fn eq_ignore_ascii_case(a: &str, b: &str) -> (r: bool)
    ensures
        r == (ascii_lower_seq(a@) == ascii_lower_seq(b@)),
{
    vec_eq(&lower_vec(&chars_of(a)), &lower_vec(&chars_of(b)))
}

} // verus!

verus! {

/// The text of an optional string.
pub open spec fn opt_view(o: Option<String>) -> Option<Seq<char>> {
    match o {
        Some(s) => Some(s@),
        None => None,
    }
}

} // verus!

verus! {

/// `a` is strictly before `b` in the lexicographic order of characters
/// (which is the byte order of their UTF-8 forms, `String`'s order).
pub open spec fn seq_lt(a: Seq<char>, b: Seq<char>) -> bool {
    exists|i: int|
        0 <= i <= a.len() && i <= b.len() && #[trigger] a.take(i) == b.take(i) && ((i < a.len()
            && i < b.len() && (a[i] as u32) < (b[i] as u32)) || (i == a.len() && i < b.len()))
}

/// `a` is strictly before `b` in the order of `String`.
pub fn str_lt(a: &str, b: &str) -> (r: bool)
    ensures
        r == seq_lt(a@, b@),
{
    let x = chars_of(a);
    let y = chars_of(b);
    let mut i: usize = 0;
    while i < x.len() && i < y.len() && x[i] == y[i]
        invariant
            i <= x.len(),
            i <= y.len(),
            x@.take(i as int) == y@.take(i as int),
        decreases x.len() - i,
    {
        assert(x@.take(i + 1) =~= x@.take(i as int).push(x@[i as int]));
        assert(y@.take(i + 1) =~= y@.take(i as int).push(y@[i as int]));
        i = i + 1;
    }
    let r = if i < x.len() && i < y.len() {
        (x[i] as u32) < (y[i] as u32)
    } else {
        i == x.len() && i < y.len()
    };
    proof {
        if r {
            assert(x@.take(i as int) == y@.take(i as int));
        } else {
            assert forall|k: int|
                0 <= k <= x@.len() && k <= y@.len() && #[trigger] x@.take(k) == y@.take(k) implies !((
            k < x@.len() && k < y@.len() && (x@[k] as u32) < (y@[k] as u32)) || (k == x@.len() && k
                < y@.len())) by {
                if k < i {
                    assert(x@[k] == x@.take(i as int)[k]);
                    assert(y@[k] == y@.take(i as int)[k]);
                    assert(x@[k] == x@.take(k + 1)[k]);
                } else if k > i {
                    assert(x@.take(k)[i as int] == y@.take(k)[i as int]);
                }
            }
        }
    }
    r
}

} // verus!

verus! {

/// `p` occurs in `s`.
pub open spec fn has_substring(s: Seq<char>, p: Seq<char>) -> bool {
    exists|i: int| 0 <= i && i + p.len() <= s.len() && #[trigger] s.subrange(i, i + p.len()) == p
}

/// `p` occurs in `s`.
pub fn str_contains(s: &str, p: &str) -> (b: bool)
    ensures
        b == has_substring(s@, p@),
{
    let v = chars_of(s);
    let w = chars_of(p);
    if w.len() > v.len() {
        return false;
    }
    if w.len() == 0 {
        assert(s@.subrange(0, 0 + p@.len() as int) =~= p@);
        return true;
    }
    let mut i: usize = 0;
    let last = v.len() - w.len();
    while i <= last
        invariant
            last == v.len() - w.len(),
            w.len() > 0,
            w.len() <= v.len(),
            v@ == s@,
            w@ == p@,
            i <= v.len() - w.len() + 1,
            forall|k: int| 0 <= k < i ==> #[trigger] v@.subrange(k, k + w@.len()) != w@,
        decreases last + 1 - i,
    {
        if eq_lit(&v, i, i + w.len(), w.as_slice()) {
            return true;
        }
        i = i + 1;
    }
    false
}

/// The lowercase form of a string, as `str::to_lowercase` gives it.
pub uninterp spec fn lowercase_of(s: Seq<char>) -> Seq<char>;

/// The lowercase form of a string.
///
/// Trusted: calls `str::to_lowercase`, which maps every character to its
/// Unicode lowercase form; the result is a function of the string alone,
/// named `lowercase_of`.
#[verifier::external_body]
pub(crate) fn to_lowercase(s: &str) -> (r: String)
    ensures
        r@ == lowercase_of(s@),
{
    s.to_lowercase()
}

/// `seq_lt` holds at position `i`: the sequences agree before `i`, and at
/// `i` the first has the smaller character or has ended while the second
/// goes on.
pub open spec fn lt_at(a: Seq<char>, b: Seq<char>, i: int) -> bool {
    0 <= i <= a.len() && i <= b.len() && a.take(i) == b.take(i) && ((i < a.len() && i < b.len()
        && (a[i] as u32) < (b[i] as u32)) || (i == a.len() && i < b.len()))
}

proof fn lemma_lt_at(a: Seq<char>, b: Seq<char>) -> (i: int)
    requires
        seq_lt(a, b),
    ensures
        lt_at(a, b, i),
{
    choose|i: int|
        0 <= i <= a.len() && i <= b.len() && #[trigger] a.take(i) == b.take(i) && ((i < a.len()
            && i < b.len() && (a[i] as u32) < (b[i] as u32)) || (i == a.len() && i < b.len()))
}

proof fn lemma_take_agree(a: Seq<char>, b: Seq<char>, i: int, k: int)
    requires
        0 <= k < i <= a.len(),
        i <= b.len(),
        a.take(i) == b.take(i),
    ensures
        a[k] == b[k],
        a.take(k) == b.take(k),
{
    assert(a[k] == a.take(i)[k]);
    assert(b[k] == b.take(i)[k]);
    assert(a.take(k) =~= a.take(i).take(k));
    assert(b.take(k) =~= b.take(i).take(k));
}

/// The order of strings is transitive.
pub proof fn lemma_seq_lt_transitive(a: Seq<char>, b: Seq<char>, c: Seq<char>)
    requires
        seq_lt(a, b),
        seq_lt(b, c),
    ensures
        seq_lt(a, c),
{
    let i = lemma_lt_at(a, b);
    let j = lemma_lt_at(b, c);
    if i < j {
        lemma_take_agree(b, c, j, i);
        assert(a.take(i) == c.take(i));
        assert(lt_at(a, c, i));
    } else if j < i {
        lemma_take_agree(a, b, i, j);
        assert(a.take(j) == c.take(j));
        assert(lt_at(a, c, j));
    } else {
        assert(a.take(i) == c.take(i));
        assert(lt_at(a, c, i));
    }
}

/// The order of strings is irreflexive and asymmetric.
pub proof fn lemma_seq_lt_asymmetric(a: Seq<char>, b: Seq<char>)
    ensures
        !(seq_lt(a, b) && seq_lt(b, a)),
        !seq_lt(a, a),
{
    if seq_lt(a, b) && seq_lt(b, a) {
        let i = lemma_lt_at(a, b);
        let j = lemma_lt_at(b, a);
        if i < j {
            lemma_take_agree(b, a, j, i);
        } else if j < i {
            lemma_take_agree(a, b, i, j);
        }
    }
    if seq_lt(a, a) {
        let i = lemma_lt_at(a, a);
    }
}

} // verus!
