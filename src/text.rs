//! Character-level helpers for header grammars: whitespace trimming, quote
//! stripping, splitting at a separator and reading decimal numerals.
use vstd::prelude::*;
use vstd::string::*;

verus! {

/// Unicode `White_Space`, the characters `char::is_whitespace` accepts.
pub open spec fn is_white(c: char) -> bool {
    ('\u{9}' <= c && c <= '\u{d}') || c == ' ' || c == '\u{85}' || c == '\u{a0}' || c
        == '\u{1680}' || ('\u{2000}' <= c && c <= '\u{200a}') || c == '\u{2028}' || c
        == '\u{2029}' || c == '\u{202f}' || c == '\u{205f}' || c == '\u{3000}'
}

/// A class of characters removed at the ends of a fragment.
pub enum Strip {
    White,
    Quote,
    OpenBracket,
    CloseBracket,
}

/// Whether `c` belongs to the class.
pub open spec fn stripped_char(c: char, class: Strip) -> bool {
    match class {
        Strip::White => is_white(c),
        Strip::Quote => c == '"',
        Strip::OpenBracket => c == '[',
        Strip::CloseBracket => c == ']',
    }
}

/// `s` without its leading characters of the class.
pub open spec fn strip_front(s: Seq<char>, class: Strip) -> Seq<char>
    decreases s.len(),
{
    if s.len() > 0 && stripped_char(s[0], class) {
        strip_front(s.drop_first(), class)
    } else {
        s
    }
}

/// `s` without its trailing characters of the class.
pub open spec fn strip_back(s: Seq<char>, class: Strip) -> Seq<char>
    decreases s.len(),
{
    if s.len() > 0 && stripped_char(s.last(), class) {
        strip_back(s.drop_last(), class)
    } else {
        s
    }
}

/// `s` with surrounding whitespace removed.
pub open spec fn trim(s: Seq<char>) -> Seq<char> {
    strip_back(strip_front(s, Strip::White), Strip::White)
}

/// `s` with surrounding double quotes removed (any number of them).
pub open spec fn trim_quotes(s: Seq<char>) -> Seq<char> {
    strip_back(strip_front(s, Strip::Quote), Strip::Quote)
}

/// The pieces of `s` between occurrences of `sep`; always at least one piece.
pub open spec fn split(s: Seq<char>, sep: char) -> Seq<Seq<char>>
    decreases s.len(),
{
    if s.len() == 0 {
        seq![Seq::empty()]
    } else {
        let pre = split(s.drop_last(), sep);
        if s.last() == sep {
            pre.push(Seq::empty())
        } else {
            pre.update(pre.len() - 1, pre.last().push(s.last()))
        }
    }
}

pub open spec fn is_digit(c: char) -> bool {
    '0' <= c && c <= '9'
}

pub open spec fn digit_value(c: char) -> nat {
    (c as int - '0' as int) as nat
}

/// A non-empty run of ASCII digits.
pub open spec fn all_digits(s: Seq<char>) -> bool {
    s.len() > 0 && forall|i: int| 0 <= i < s.len() ==> is_digit(#[trigger] s[i])
}

/// The number that a run of decimal digits denotes.
pub open spec fn digits_value(s: Seq<char>) -> nat
    decreases s.len(),
{
    if s.len() == 0 {
        0
    } else {
        digits_value(s.drop_last()) * 10 + digit_value(s.last())
    }
}

/// An unsigned numeral as `str::parse` reads it: an optional `+`, then digits.
pub open spec fn unsigned_value(s: Seq<char>) -> Option<nat> {
    let d = if s.len() > 0 && s[0] == '+' {
        s.drop_first()
    } else {
        s
    };
    if all_digits(d) {
        Some(digits_value(d))
    } else {
        None
    }
}

/// What `s.parse::<u64>()` yields.
pub open spec fn u64_of(s: Seq<char>) -> Option<u64> {
    match unsigned_value(s) {
        Some(n) => if n <= u64::MAX {
            Some(n as u64)
        } else {
            None
        },
        None => None,
    }
}

/// What `s.parse::<u16>()` yields.
pub open spec fn u16_of(s: Seq<char>) -> Option<u16> {
    match unsigned_value(s) {
        Some(n) => if n <= u16::MAX {
            Some(n as u16)
        } else {
            None
        },
        None => None,
    }
}

/// What `s.parse::<i32>()` yields: an optional sign, then digits, in range.
pub open spec fn i32_of(s: Seq<char>) -> Option<i32> {
    if s.len() > 0 && s[0] == '-' {
        let d = s.drop_first();
        if all_digits(d) && digits_value(d) <= 0x8000_0000 {
            Some((-digits_value(d)) as i32)
        } else {
            None
        }
    } else {
        match unsigned_value(s) {
            Some(n) => if n <= i32::MAX {
                Some(n as i32)
            } else {
                None
            },
            None => None,
        }
    }
}

/// The views of a sequence of character vectors.
pub open spec fn views(v: Seq<Vec<char>>) -> Seq<Seq<char>> {
    v.map_values(|x: Vec<char>| x@)
}

proof fn lemma_strip_front(s: Seq<char>, class: Strip, a: int)
    requires
        0 <= a <= s.len(),
        forall|i: int| 0 <= i < a ==> stripped_char(#[trigger] s[i], class),
        a == s.len() || !stripped_char(s[a], class),
    ensures
        strip_front(s, class) == s.subrange(a, s.len() as int),
    decreases a,
{
    if a > 0 {
        assert(forall|i: int| 0 <= i < a - 1 ==> s.drop_first()[i] == s[i + 1]);
        lemma_strip_front(s.drop_first(), class, a - 1);
        assert(s.drop_first().subrange(a - 1, s.len() - 1) =~= s.subrange(a, s.len() as int));
    } else {
        assert(s.subrange(0, s.len() as int) =~= s);
    }
}

proof fn lemma_strip_back(s: Seq<char>, class: Strip, b: int)
    requires
        0 <= b <= s.len(),
        forall|i: int| b <= i < s.len() ==> stripped_char(#[trigger] s[i], class),
        b == 0 || !stripped_char(s[b - 1], class),
    ensures
        strip_back(s, class) == s.subrange(0, b),
    decreases s.len() - b,
{
    if b < s.len() {
        assert(stripped_char(s[s.len() - 1], class));
        lemma_strip_back(s.drop_last(), class, b);
        assert(s.drop_last().subrange(0, b) =~= s.subrange(0, b));
    } else {
        assert(s.subrange(0, b) =~= s);
    }
}

proof fn lemma_split_nonempty(s: Seq<char>, sep: char)
    ensures
        split(s, sep).len() >= 1,
    decreases s.len(),
{
    if s.len() > 0 {
        lemma_split_nonempty(s.drop_last(), sep);
    }
}

fn is_white_char(c: char) -> (r: bool)
    ensures
        r == is_white(c),
{
    ('\u{9}' <= c && c <= '\u{d}') || c == ' ' || c == '\u{85}' || c == '\u{a0}' || c
        == '\u{1680}' || ('\u{2000}' <= c && c <= '\u{200a}') || c == '\u{2028}' || c
        == '\u{2029}' || c == '\u{202f}' || c == '\u{205f}' || c == '\u{3000}'
}

fn is_stripped_char(c: char, class: &Strip) -> (r: bool)
    ensures
        r == stripped_char(c, *class),
{
    match class {
        Strip::White => is_white_char(c),
        Strip::Quote => c == '"',
        Strip::OpenBracket => c == '[',
        Strip::CloseBracket => c == ']',
    }
}

/// Relies on `String: FromIterator<char>`, which appends the characters in
/// order.
#[verifier::external_body]
pub(crate) fn string_of(v: &Vec<char>) -> (r: String)
    ensures
        r@ == v@,
{
    v.iter().collect()
}

/// The characters of `s`, in order.
pub fn chars_of(s: &str) -> (r: Vec<char>)
    ensures
        r@ == s@,
{
    let n: usize = s.unicode_len();
    let mut r: Vec<char> = Vec::new();
    let mut i: usize = 0;
    while i < n
        invariant
            n == s@.len(),
            i <= n,
            r@ == s@.take(i as int),
        decreases n - i,
    {
        let c = s.get_char(i);
        r.push(c);
        i += 1;
        assert(r@ =~= s@.take(i as int));
    }
    assert(s@.take(n as int) =~= s@);
    r
}

/// The characters `v[a..b]`.
pub fn copy_range(v: &Vec<char>, a: usize, b: usize) -> (r: Vec<char>)
    requires
        a <= b <= v.len(),
    ensures
        r@ == v@.subrange(a as int, b as int),
{
    let mut r: Vec<char> = Vec::new();
    let mut i: usize = a;
    while i < b
        invariant
            a <= i <= b <= v.len(),
            r@ == v@.subrange(a as int, i as int),
        decreases b - i,
    {
        r.push(v[i]);
        i += 1;
        assert(r@ =~= v@.subrange(a as int, i as int));
    }
    r
}

/// `v` without its leading characters of the class.
pub fn strip_start(v: &Vec<char>, class: Strip) -> (r: Vec<char>)
    ensures
        r@ == strip_front(v@, class),
{
    let mut a: usize = 0;
    while a < v.len() && is_stripped_char(v[a], &class)
        invariant
            a <= v.len(),
            forall|i: int| 0 <= i < a ==> stripped_char(#[trigger] v@[i], class),
        decreases v.len() - a,
    {
        a += 1;
    }
    proof {
        lemma_strip_front(v@, class, a as int);
    }
    copy_range(v, a, v.len())
}

/// `v` without its trailing characters of the class.
pub fn strip_end(v: &Vec<char>, class: Strip) -> (r: Vec<char>)
    ensures
        r@ == strip_back(v@, class),
{
    let mut b: usize = v.len();
    while b > 0 && is_stripped_char(v[b - 1], &class)
        invariant
            b <= v.len(),
            forall|i: int| b <= i < v.len() ==> stripped_char(#[trigger] v@[i], class),
        decreases b,
    {
        b -= 1;
    }
    proof {
        lemma_strip_back(v@, class, b as int);
    }
    copy_range(v, 0, b)
}

/// `v` with surrounding whitespace removed.
pub fn trim_white(v: &Vec<char>) -> (r: Vec<char>)
    ensures
        r@ == trim(v@),
{
    strip_end(&strip_start(v, Strip::White), Strip::White)
}

/// `v` with surrounding double quotes removed.
pub fn strip_quotes(v: &Vec<char>) -> (r: Vec<char>)
    ensures
        r@ == trim_quotes(v@),
{
    strip_end(&strip_start(v, Strip::Quote), Strip::Quote)
}

/// The pieces of `v` between occurrences of `sep`.
pub fn split_at_char(v: &Vec<char>, sep: char) -> (r: Vec<Vec<char>>)
    ensures
        views(r@) == split(v@, sep),
{
    let mut parts: Vec<Vec<char>> = Vec::new();
    let mut cur: Vec<char> = Vec::new();
    let mut i: usize = 0;
    assert(v@.take(0) =~= Seq::<char>::empty());
    assert(views(parts@).push(cur@) =~= split(v@.take(0), sep));
    while i < v.len()
        invariant
            i <= v.len(),
            views(parts@).push(cur@) == split(v@.take(i as int), sep),
        decreases v.len() - i,
    {
        let c = v[i];
        let ghost pre = v@.take(i as int);
        let ghost next = v@.take(i + 1);
        proof {
            assert(next.drop_last() =~= pre);
            assert(next.last() == c);
            lemma_split_nonempty(pre, sep);
        }
        if c == sep {
            let done = cur;
            parts.push(done);
            cur = Vec::new();
            assert(views(parts@).push(cur@) =~= split(next, sep));
        } else {
            cur.push(c);
            assert(views(parts@).push(cur@) =~= split(next, sep));
        }
        i += 1;
    }
    assert(v@.take(v.len() as int) =~= v@);
    parts.push(cur);
    assert(views(parts@) =~= split(v@, sep));
    parts
}

/// Whether `v` holds exactly the characters of `w`.
pub fn same_chars(v: &Vec<char>, w: &[char]) -> (r: bool)
    ensures
        r == (v@ == w@),
{
    if v.len() != w.len() {
        return false;
    }
    let mut i: usize = 0;
    while i < v.len()
        invariant
            v.len() == w@.len(),
            i <= v.len(),
            forall|j: int| 0 <= j < i ==> v@[j] == w@[j],
        decreases v.len() - i,
    {
        if v[i] != w[i] {
            return false;
        }
        i += 1;
    }
    assert(v@ =~= w@);
    true
}

/// The value of the digits `v[start..]` if they are all digits, there is at
/// least one, and the value is at most `limit`.
fn bounded_digits(v: &Vec<char>, start: usize, limit: u64) -> (r: Option<u64>)
    requires
        start <= v.len(),
    ensures
        ({
            let d = v@.subrange(start as int, v.len() as int);
            r == if all_digits(d) && digits_value(d) <= limit {
                Some(digits_value(d) as u64)
            } else {
                None
            }
        }),
{
    if start == v.len() {
        return None;
    }
    let mut value: u128 = 0;
    let mut i: usize = start;
    assert(v@.subrange(start as int, start as int) =~= Seq::<char>::empty());
    while i < v.len()
        invariant
            start <= i <= v.len(),
            forall|j: int| start <= j < i ==> is_digit(#[trigger] v@[j]),
            value == if digits_value(v@.subrange(start as int, i as int)) <= limit {
                digits_value(v@.subrange(start as int, i as int)) as int
            } else {
                limit + 1
            },
        decreases v.len() - i,
    {
        let c = v[i];
        if !('0' <= c && c <= '9') {
            let ghost d = v@.subrange(start as int, v.len() as int);
            assert(d[i - start] == c);
            return None;
        }
        let ghost pre = v@.subrange(start as int, i as int);
        let ghost next = v@.subrange(start as int, i + 1);
        assert(next.drop_last() =~= pre);
        let dv: u128 = ((c as u32) - ('0' as u32)) as u128;
        assert(dv == digit_value(c));
        value = value * 10 + dv;
        if value > limit as u128 {
            value = limit as u128 + 1;
        }
        i += 1;
    }
    let ghost d = v@.subrange(start as int, v.len() as int);
    assert(all_digits(d)) by {
        assert forall|j: int| 0 <= j < d.len() implies is_digit(#[trigger] d[j]) by {
            assert(d[j] == v@[j + start]);
        }
    }
    if value <= limit as u128 {
        Some(value as u64)
    } else {
        None
    }
}

fn unsigned_bounded(v: &Vec<char>, limit: u64) -> (r: Option<u64>)
    ensures
        r == match unsigned_value(v@) {
            Some(n) => if n <= limit {
                Some(n as u64)
            } else {
                None
            },
            None => None,
        },
{
    let start: usize = if v.len() > 0 && v[0] == '+' {
        1
    } else {
        0
    };
    assert(v@.subrange(start as int, v.len() as int) =~= (if v@.len() > 0 && v@[0] == '+' {
        v@.drop_first()
    } else {
        v@
    }));
    bounded_digits(v, start, limit)
}

/// `v` read as a `u64` numeral.
pub fn parse_u64(v: &Vec<char>) -> (r: Option<u64>)
    ensures
        r == u64_of(v@),
{
    unsigned_bounded(v, u64::MAX)
}

/// `v` read as a `u16` numeral.
pub fn parse_u16(v: &Vec<char>) -> (r: Option<u16>)
    ensures
        r == u16_of(v@),
{
    match unsigned_bounded(v, u16::MAX as u64) {
        Some(n) => Some(n as u16),
        None => None,
    }
}

/// `v` read as an `i32` numeral.
pub fn parse_i32(v: &Vec<char>) -> (r: Option<i32>)
    ensures
        r == i32_of(v@),
{
    if v.len() > 0 && v[0] == '-' {
        assert(v@.subrange(1, v.len() as int) =~= v@.drop_first());
        match bounded_digits(v, 1, 0x8000_0000) {
            Some(n) => Some((0 - (n as i64)) as i32),
            None => None,
        }
    } else {
        match unsigned_bounded(v, i32::MAX as u64) {
            Some(n) => Some(n as i32),
            None => None,
        }
    }
}

} // verus!
