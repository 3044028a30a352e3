//! Text helpers over `&str` and `String`, specified on `Seq<char>`.

use vstd::prelude::*;
use vstd::string::*;

verus! {

/// The texts of a list of strings.
pub open spec fn texts(list: Seq<String>) -> Seq<Seq<char>> {
    list.map_values(|s: String| s@)
}

/// `a` followed by `b`.
pub fn joined(a: &str, b: &str) -> (out: String)
    ensures
        out@ == a@ + b@,
{
    let out = String::from_str(a);
    out.concat(b)
}

/// The characters of `s` from index `from` up to, not including, `to`.
pub fn slice(s: &str, from: usize, to: usize) -> (out: String)
    requires
        from <= to <= s@.len(),
    ensures
        out@ == s@.subrange(from as int, to as int),
{
    String::from_str(s.substring_char(from, to))
}

/// Whether two strings hold the same characters.
pub fn same_text(a: &str, b: &str) -> (same: bool)
    ensures
        same == (a@ == b@),
{
    let n = a.unicode_len();
    if b.unicode_len() != n {
        return false;
    }
    let mut i: usize = 0;
    while i < n
        invariant
            i <= n,
            n == a@.len(),
            n == b@.len(),
            forall|k: int| 0 <= k < i ==> a@[k] == b@[k],
        decreases n - i,
    {
        if a.get_char(i) != b.get_char(i) {
            return false;
        }
        i += 1;
    }
    assert(a@ =~= b@);
    true
}

/// Whether `list` holds a string with the text of `wanted`.
pub fn contains_text(list: &Vec<String>, wanted: &str) -> (found: bool)
    ensures
        found == texts(list@).contains(wanted@),
{
    let mut i: usize = 0;
    while i < list.len()
        invariant
            i <= list.len(),
            forall|k: int| 0 <= k < i ==> texts(list@)[k] != wanted@,
        decreases list.len() - i,
    {
        if same_text(list[i].as_str(), wanted) {
            assert(texts(list@)[i as int] == wanted@);
            return true;
        }
        i += 1;
    }
    false
}

/// The position of the first `c` in `s`, or the length of `s` if there is none.
pub open spec fn index_of(s: Seq<char>, c: char) -> int
    decreases s.len(),
{
    if s.len() == 0 {
        0
    } else if s[0] == c {
        0
    } else {
        1 + index_of(s.drop_first(), c)
    }
}

/// `index_of` finds the first occurrence.
pub proof fn lemma_index_of(s: Seq<char>, c: char)
    ensures
        0 <= index_of(s, c) <= s.len(),
        index_of(s, c) < s.len() ==> s[index_of(s, c)] == c,
        forall|k: int| 0 <= k < index_of(s, c) ==> s[k] != c,
        index_of(s, c) < s.len() <==> s.contains(c),
    decreases s.len(),
{
    if s.len() > 0 && s[0] != c {
        let rest = s.drop_first();
        lemma_index_of(rest, c);
        assert forall|k: int| 0 <= k < index_of(s, c) implies s[k] != c by {
            if k > 0 {
                assert(rest[k - 1] == s[k]);
            }
        }
        if index_of(s, c) < s.len() {
            assert(s[index_of(s, c)] == rest[index_of(rest, c)]);
        }
        if s.contains(c) {
            let k = choose|k: int| 0 <= k < s.len() && s[k] == c;
            assert(rest[k - 1] == c);
        }
    } else if s.len() > 0 {
        assert(s[0] == c);
    }
}

/// A position that holds `c` and has no `c` before it is the first.
pub proof fn lemma_index_of_is(s: Seq<char>, c: char, at: int)
    requires
        0 <= at <= s.len(),
        at < s.len() ==> s[at] == c,
        forall|k: int| 0 <= k < at ==> s[k] != c,
    ensures
        index_of(s, c) == at,
{
    lemma_index_of(s, c);
}

/// The position of the first `c` in `s` at or after `from`, or the length of
/// `s` if there is none.
pub fn find_from(s: &str, c: char, from: usize) -> (at: usize)
    requires
        from <= s@.len(),
    ensures
        at == from + index_of(s@.skip(from as int), c),
        from <= at <= s@.len(),
{
    let n = s.unicode_len();
    let mut i = from;
    while i < n && s.get_char(i) != c
        invariant
            from <= i <= n,
            n == s@.len(),
            forall|k: int| from <= k < i ==> s@[k] != c,
        decreases n - i,
    {
        i += 1;
    }
    proof {
        let rest = s@.skip(from as int);
        assert forall|k: int| 0 <= k < i - from implies rest[k] != c by {
            assert(rest[k] == s@[from + k]);
        }
        lemma_index_of_is(rest, c, i - from);
    }
    i
}

/// Whether `c` occurs in `s`.
pub fn has_char(s: &str, c: char) -> (found: bool)
    ensures
        found == s@.contains(c),
{
    let at = find_from(s, c, 0);
    proof {
        assert(s@.skip(0) =~= s@);
        lemma_index_of(s@, c);
    }
    at < s.unicode_len()
}

/// Whether `s` ends with `suffix`.
pub open spec fn is_suffix(suffix: Seq<char>, s: Seq<char>) -> bool {
    suffix.len() <= s.len() && s.skip(s.len() - suffix.len()) == suffix
}

/// Whether `s` ends with `suffix`.
pub fn ends_with(s: &str, suffix: &str) -> (ends: bool)
    ensures
        ends == is_suffix(suffix@, s@),
{
    let n = s.unicode_len();
    let m = suffix.unicode_len();
    if m > n {
        return false;
    }
    let start = n - m;
    let mut i: usize = 0;
    while i < m
        invariant
            i <= m,
            m == suffix@.len(),
            n == s@.len(),
            start == n - m,
            forall|k: int| 0 <= k < i ==> s@[start + k] == suffix@[k],
        decreases m - i,
    {
        if s.get_char(start + i) != suffix.get_char(i) {
            assert(s@.skip(start as int)[i as int] != suffix@[i as int]);
            return false;
        }
        i += 1;
    }
    assert(s@.skip(start as int) =~= suffix@);
    true
}

/// Whether `c` is white space, as Unicode defines it.
pub open spec fn is_whitespace(c: char) -> bool {
    let u = c as u32;
    ||| (0x09 <= u && u <= 0x0d)
    ||| u == 0x20
    ||| u == 0x85
    ||| u == 0xa0
    ||| u == 0x1680
    ||| (0x2000 <= u && u <= 0x200a)
    ||| u == 0x2028
    ||| u == 0x2029
    ||| u == 0x202f
    ||| u == 0x205f
    ||| u == 0x3000
}

/// Whether `c` is white space.
pub fn char_is_whitespace(c: char) -> (b: bool)
    ensures
        b == is_whitespace(c),
{
    let u: u32 = c as u32;
    (0x09 <= u && u <= 0x0d) || u == 0x20 || u == 0x85 || u == 0xa0 || u == 0x1680 || (0x2000 <= u
        && u <= 0x200a) || u == 0x2028 || u == 0x2029 || u == 0x202f || u == 0x205f || u == 0x3000
}

/// The first position at or after `from` that holds no white space, or the
/// length of `s`.
pub open spec fn skip_whitespace(s: Seq<char>, from: int) -> int
    decreases s.len() - from,
{
    if 0 <= from < s.len() && is_whitespace(s[from]) {
        skip_whitespace(s, from + 1)
    } else {
        from
    }
}

/// The first position at or after `from` that holds white space, or the
/// length of `s`.
pub open spec fn skip_word(s: Seq<char>, from: int) -> int
    decreases s.len() - from,
{
    if 0 <= from < s.len() && !is_whitespace(s[from]) {
        skip_word(s, from + 1)
    } else {
        from
    }
}

/// The end of `s` once the white space that ends it is cut off, but not
/// below `low`.
pub open spec fn trim_end_index(s: Seq<char>, low: int, end: int) -> int
    decreases end,
{
    if 0 <= low < end <= s.len() && is_whitespace(s[end - 1]) {
        trim_end_index(s, low, end - 1)
    } else {
        end
    }
}

/// `s` without the white space at its start and at its end.
pub open spec fn trimmed(s: Seq<char>) -> Seq<char> {
    let start = skip_whitespace(s, 0);
    s.subrange(start, trim_end_index(s, start, s.len() as int))
}

pub proof fn lemma_skip_whitespace(s: Seq<char>, from: int)
    requires
        0 <= from <= s.len(),
    ensures
        from <= skip_whitespace(s, from) <= s.len(),
        forall|k: int| from <= k < skip_whitespace(s, from) ==> is_whitespace(s[k]),
        skip_whitespace(s, from) < s.len() ==> !is_whitespace(s[skip_whitespace(s, from)]),
    decreases s.len() - from,
{
    if from < s.len() && is_whitespace(s[from]) {
        lemma_skip_whitespace(s, from + 1);
    }
}

pub proof fn lemma_trim_end_index(s: Seq<char>, low: int, end: int)
    requires
        0 <= low <= end <= s.len(),
    ensures
        low <= trim_end_index(s, low, end) <= end,
        forall|k: int| trim_end_index(s, low, end) <= k < end ==> is_whitespace(s[k]),
        trim_end_index(s, low, end) > low ==> !is_whitespace(s[trim_end_index(s, low, end) - 1]),
    decreases end,
{
    if low < end && is_whitespace(s[end - 1]) {
        lemma_trim_end_index(s, low, end - 1);
    }
}

/// What trimming leaves: `s` is white space, then `trimmed(s)`, then white
/// space, and `trimmed(s)` neither starts nor ends with white space.
pub proof fn lemma_trimmed(s: Seq<char>)
    ensures
        ({
            let t = trimmed(s);
            let start = skip_whitespace(s, 0);
            &&& 0 <= start <= s.len()
            &&& start + t.len() <= s.len()
            &&& forall|k: int| 0 <= k < t.len() ==> t[k] == s[start + k]
            &&& forall|k: int| 0 <= k < start ==> is_whitespace(s[k])
            &&& forall|k: int| start + t.len() <= k < s.len() ==> is_whitespace(s[k])
            &&& t.len() > 0 ==> !is_whitespace(t[0]) && !is_whitespace(t[t.len() - 1])
        }),
{
    lemma_skip_whitespace(s, 0);
    lemma_trim_end_index(s, skip_whitespace(s, 0), s.len() as int);
}

fn skip_whitespace_from(s: &str, from: usize) -> (at: usize)
    requires
        from <= s@.len(),
    ensures
        at == skip_whitespace(s@, from as int),
        from <= at <= s@.len(),
{
    let n = s.unicode_len();
    let mut i = from;
    while i < n && char_is_whitespace(s.get_char(i))
        invariant
            from <= i <= n,
            n == s@.len(),
            skip_whitespace(s@, i as int) == skip_whitespace(s@, from as int),
        decreases n - i,
    {
        i += 1;
    }
    i
}

fn skip_word_from(s: &str, from: usize) -> (at: usize)
    requires
        from <= s@.len(),
    ensures
        at == skip_word(s@, from as int),
        from <= at <= s@.len(),
{
    let n = s.unicode_len();
    let mut i = from;
    while i < n && !char_is_whitespace(s.get_char(i))
        invariant
            from <= i <= n,
            n == s@.len(),
            skip_word(s@, i as int) == skip_word(s@, from as int),
        decreases n - i,
    {
        i += 1;
    }
    i
}

/// `s` without the white space at its start and at its end.
pub fn trim(s: &str) -> (out: String)
    ensures
        out@ == trimmed(s@),
{
    let n = s.unicode_len();
    let start = skip_whitespace_from(s, 0);
    let mut end = n;
    while end > start && char_is_whitespace(s.get_char(end - 1))
        invariant
            start <= end <= n,
            n == s@.len(),
            trim_end_index(s@, start as int, end as int) == trim_end_index(
                s@,
                start as int,
                n as int,
            ),
        decreases end,
    {
        end -= 1;
    }
    slice(s, start, end)
}

/// The word of `s` with index `k`, words being what white space separates;
/// empty if `s` has no such word.
pub open spec fn word(s: Seq<char>, k: nat) -> Seq<char>
    decreases k,
{
    let start = skip_whitespace(s, 0);
    let end = skip_word(s, start);
    if k == 0 {
        s.subrange(start, end)
    } else {
        word(s.skip(end), (k - 1) as nat)
    }
}

/// The word of `s` with index `k`; empty if `s` has no such word.
pub fn nth_word(s: &str, k: usize) -> (out: String)
    ensures
        out@ == word(s@, k as nat),
{
    let n = s.unicode_len();
    let mut rest = String::from_str(s);
    let mut left = k;
    while left > 0
        invariant
            word(rest@, left as nat) == word(s@, k as nat),
        decreases left,
    {
        let start = skip_whitespace_from(rest.as_str(), 0);
        let end = skip_word_from(rest.as_str(), start);
        let len = rest.as_str().unicode_len();
        let next = slice(rest.as_str(), end, len);
        proof {
            assert(rest@.skip(end as int) =~= rest@.subrange(end as int, len as int));
        }
        rest = next;
        left -= 1;
    }
    let start = skip_whitespace_from(rest.as_str(), 0);
    let end = skip_word_from(rest.as_str(), start);
    slice(rest.as_str(), start, end)
}

/// The decimal digit `d` as a character.
pub open spec fn digit_char(d: nat) -> char
    recommends
        d < 10,
{
    if d == 0 {
        '0'
    } else if d == 1 {
        '1'
    } else if d == 2 {
        '2'
    } else if d == 3 {
        '3'
    } else if d == 4 {
        '4'
    } else if d == 5 {
        '5'
    } else if d == 6 {
        '6'
    } else if d == 7 {
        '7'
    } else if d == 8 {
        '8'
    } else {
        '9'
    }
}

/// `n` written in base ten, without leading zeros.
pub open spec fn decimal(n: nat) -> Seq<char>
    decreases n,
{
    if n < 10 {
        seq![digit_char(n)]
    } else {
        decimal(n / 10).push(digit_char(n % 10))
    }
}

/// `n` written in base ten, with a minus sign if it is negative.
pub open spec fn signed_decimal(n: int) -> Seq<char> {
    if n < 0 {
        seq!['-'] + decimal((-n) as nat)
    } else {
        decimal(n as nat)
    }
}

/// `n` written in base ten with at least two digits.
pub open spec fn two_digits(n: nat) -> Seq<char> {
    if n < 10 {
        seq!['0'] + decimal(n)
    } else {
        decimal(n)
    }
}

fn digit_text(d: u64) -> (text: &'static str)
    requires
        d < 10,
    ensures
        text@ == seq![digit_char(d as nat)],
{
    proof {
        reveal_strlit("0");
        reveal_strlit("1");
        reveal_strlit("2");
        reveal_strlit("3");
        reveal_strlit("4");
        reveal_strlit("5");
        reveal_strlit("6");
        reveal_strlit("7");
        reveal_strlit("8");
        reveal_strlit("9");
    }
    let text = if d == 0 {
        "0"
    } else if d == 1 {
        "1"
    } else if d == 2 {
        "2"
    } else if d == 3 {
        "3"
    } else if d == 4 {
        "4"
    } else if d == 5 {
        "5"
    } else if d == 6 {
        "6"
    } else if d == 7 {
        "7"
    } else if d == 8 {
        "8"
    } else {
        "9"
    };
    assert(text@ =~= seq![digit_char(d as nat)]);
    text
}

/// `n` written in base ten.
pub fn decimal_string(n: u64) -> (out: String)
    ensures
        out@ == decimal(n as nat),
    decreases n,
{
    if n < 10 {
        String::from_str(digit_text(n))
    } else {
        let mut out = decimal_string(n / 10);
        out.append(digit_text(n % 10));
        assert(out@ =~= decimal(n as nat));
        out
    }
}

/// `n` written in base ten, with a minus sign if it is negative.
pub fn signed_decimal_string(n: i64) -> (out: String)
    ensures
        out@ == signed_decimal(n as int),
{
    if n < 0 {
        let magnitude: u64 = if n == i64::MIN {
            0x8000_0000_0000_0000u64
        } else {
            (-n) as u64
        };
        proof {
            reveal_strlit("-");
        }
        let out = joined("-", decimal_string(magnitude).as_str());
        assert(out@ =~= signed_decimal(n as int));
        out
    } else {
        decimal_string(n as u64)
    }
}

/// `n` written in base ten with at least two digits.
pub fn two_digit_string(n: u64) -> (out: String)
    ensures
        out@ == two_digits(n as nat),
{
    if n < 10 {
        proof {
            reveal_strlit("0");
        }
        let out = joined("0", decimal_string(n).as_str());
        assert(out@ =~= two_digits(n as nat));
        out
    } else {
        decimal_string(n)
    }
}

/// The value of the decimal digit `c`, if it is one.
pub open spec fn digit_value(c: char) -> Option<nat> {
    if '0' <= c <= '9' {
        Some((c as u32 - '0' as u32) as nat)
    } else {
        None
    }
}

/// Whether `s` holds decimal digits only.
pub open spec fn all_digits(s: Seq<char>) -> bool {
    forall|k: int| 0 <= k < s.len() ==> digit_value(#[trigger] s[k]) is Some
}

/// The number that the decimal digits `s` write.
pub open spec fn digits_value(s: Seq<char>) -> nat
    decreases s.len(),
{
    if s.len() == 0 {
        0
    } else {
        digits_value(s.drop_last()) * 10 + match digit_value(s.last()) {
            Some(d) => d,
            None => 0,
        }
    }
}

/// The number that `s` writes, if it writes one that a `u64` holds: decimal
/// digits, at least one, with or without a plus sign before them.
pub open spec fn parsed_u64(s: Seq<char>) -> Option<u64> {
    let digits = if s.len() > 0 && s[0] == '+' {
        s.drop_first()
    } else {
        s
    };
    if digits.len() > 0 && all_digits(digits) && digits_value(digits) <= u64::MAX {
        Some(digits_value(digits) as u64)
    } else {
        None
    }
}

proof fn lemma_digits_value_grows(s: Seq<char>, k: int)
    requires
        0 <= k <= s.len(),
    ensures
        digits_value(s.take(k)) <= digits_value(s),
    decreases s.len() - k,
{
    if k < s.len() {
        lemma_digits_value_grows(s, k + 1);
        assert(s.take(k + 1).drop_last() =~= s.take(k));
    } else {
        assert(s.take(k) =~= s);
    }
}

/// The number that `s` writes, if it writes one that a `u64` holds.
pub fn parse_u64(s: &str) -> (value: Option<u64>)
    ensures
        value == parsed_u64(s@),
{
    let n = s.unicode_len();
    let start: usize = if n > 0 && s.get_char(0) == '+' {
        1
    } else {
        0
    };
    let ghost digits = s@.skip(start as int);
    proof {
        if start == 1 {
            assert(s@.drop_first() =~= digits);
        } else {
            assert(s@ =~= digits);
        }
    }
    if start == n {
        return None;
    }
    let mut value: u64 = 0;
    let mut i = start;
    while i < n
        invariant
            start <= i <= n,
            n == s@.len(),
            digits == s@.skip(start as int),
            digits == if s@.len() > 0 && s@[0] == '+' {
                s@.drop_first()
            } else {
                s@
            },
            all_digits(digits.take(i - start)),
            value == digits_value(digits.take(i - start)),
        decreases n - i,
    {
        let c = s.get_char(i);
        assert(digits[i - start] == c);
        if c < '0' || c > '9' {
            assert(digit_value(digits[i - start]) is None);
            assert(!all_digits(digits));
            return None;
        }
        let d: u64 = (c as u32 - '0' as u32) as u64;
        let ghost longer = digits.take(i - start + 1);
        proof {
            assert(longer.drop_last() =~= digits.take(i - start));
            assert(longer.last() == c);
            assert(digits_value(longer) == value * 10 + d);
            assert forall|k: int| 0 <= k < longer.len() implies digit_value(
                #[trigger] longer[k],
            ) is Some by {
                if k < i - start {
                    assert(digits.take(i - start)[k] == longer[k]);
                }
            }
        }
        if value > (u64::MAX - d) / 10 {
            proof {
                lemma_digits_value_grows(digits, i - start + 1);
                assert(value * 10 + d > u64::MAX);
                assert(digits_value(digits) > u64::MAX);
            }
            return None;
        }
        value = value * 10 + d;
        i += 1;
    }
    proof {
        assert(digits.take(n - start) =~= digits);
    }
    Some(value)
}

/// Whether `a` and `b` are the same letter of the basic Latin alphabet in
/// different case, or the same character.
pub open spec fn same_ignoring_case(a: char, b: char) -> bool {
    ||| a == b
    ||| ('A' <= a <= 'Z' && a as u32 + 32 == b as u32)
    ||| ('A' <= b <= 'Z' && b as u32 + 32 == a as u32)
}

/// Whether `a` and `b` differ at most in the case of basic Latin letters.
pub open spec fn matches_ignoring_case(a: Seq<char>, b: Seq<char>) -> bool {
    a.len() == b.len() && forall|k: int| 0 <= k < a.len() ==> same_ignoring_case(a[k], b[k])
}

/// Whether `a` and `b` differ at most in the case of basic Latin letters.
pub fn eq_ignoring_case(a: &str, b: &str) -> (same: bool)
    ensures
        same == matches_ignoring_case(a@, b@),
{
    let n = a.unicode_len();
    if b.unicode_len() != n {
        return false;
    }
    let mut i: usize = 0;
    while i < n
        invariant
            i <= n,
            n == a@.len(),
            n == b@.len(),
            forall|k: int| 0 <= k < i ==> same_ignoring_case(a@[k], b@[k]),
        decreases n - i,
    {
        let x = a.get_char(i);
        let y = b.get_char(i);
        let same = x == y || ('A' <= x && x <= 'Z' && x as u32 + 32 == y as u32) || ('A' <= y && y
            <= 'Z' && y as u32 + 32 == x as u32);
        if !same {
            return false;
        }
        i += 1;
    }
    true
}

/// The pieces of `s` between occurrences of `sep`: one more than there are
/// occurrences.
pub open spec fn split(s: Seq<char>, sep: char) -> Seq<Seq<char>>
    decreases s.len(),
{
    let at = index_of(s, sep);
    if 0 <= at < s.len() {
        seq![s.take(at)] + split(s.skip(at + 1), sep)
    } else {
        seq![s]
    }
}

/// The pieces of `s` between occurrences of `sep`.
pub fn split_on(s: &str, sep: char) -> (pieces: Vec<String>)
    ensures
        texts(pieces@) == split(s@, sep),
{
    let n = s.unicode_len();
    let mut pieces: Vec<String> = Vec::new();
    let mut from: usize = 0;
    proof {
        assert(s@.skip(0) =~= s@);
        assert(texts(pieces@) + split(s@, sep) =~= split(s@, sep));
    }
    loop
        invariant
            from <= n,
            n == s@.len(),
            texts(pieces@) + split(s@.skip(from as int), sep) == split(s@, sep),
        decreases n - from,
    {
        let at = find_from(s, sep, from);
        let ghost rest = s@.skip(from as int);
        let ghost before = texts(pieces@);
        pieces.push(slice(s, from, at));
        proof {
            lemma_index_of(rest, sep);
            assert(rest.take(at - from) =~= s@.subrange(from as int, at as int));
            assert(texts(pieces@) =~= before.push(rest.take(at - from)));
        }
        if at == n {
            proof {
                assert(split(rest, sep) =~= seq![rest]);
                assert(rest.take(at - from) =~= rest);
                assert(texts(pieces@) =~= before + split(rest, sep));
            }
            return pieces;
        }
        proof {
            assert(rest.skip(at - from + 1) =~= s@.skip(at + 1));
            assert(split(rest, sep) =~= seq![rest.take(at - from)] + split(s@.skip(at + 1), sep));
            assert(texts(pieces@) + split(s@.skip(at + 1), sep) =~= before + split(rest, sep));
        }
        from = at + 1;
    }
}

} // verus!
