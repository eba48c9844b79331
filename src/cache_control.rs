use vstd::prelude::*;
use vstd::string::*;

verus! {

/// Position of the first `,` of `s` at or after `from`, or `s.len()` if none.
pub open spec fn next_comma(s: Seq<char>, from: int) -> int
    decreases s.len() - from,
{
    if from < 0 || from >= s.len() {
        s.len() as int
    } else if s[from] == ',' {
        from
    } else {
        next_comma(s, from + 1)
    }
}

pub open spec fn is_space(c: char) -> bool {
    c == ' ' || c == '\t'
}

pub open spec fn trim_start(d: Seq<char>) -> Seq<char>
    decreases d.len(),
{
    if d.len() > 0 && is_space(d[0]) {
        trim_start(d.drop_first())
    } else {
        d
    }
}

pub open spec fn trim_end(d: Seq<char>) -> Seq<char>
    decreases d.len(),
{
    if d.len() > 0 && is_space(d.last()) {
        trim_end(d.drop_last())
    } else {
        d
    }
}

/// The directive that starts at `from`, without surrounding blanks.
pub open spec fn directive_at(s: Seq<char>, from: int) -> Seq<char> {
    trim_end(trim_start(s.subrange(from, next_comma(s, from))))
}

/// `c` is the lower-case letter `e`, or its upper-case form.
pub open spec fn same_ignoring_case(c: char, e: char) -> bool {
    c == e || ('A' <= c <= 'Z' && c as u32 + 32 == e as u32)
}

pub open spec fn max_age_prefix() -> Seq<char> {
    seq!['m', 'a', 'x', '-', 'a', 'g', 'e', '=']
}

pub open spec fn is_digit(c: char) -> bool {
    '0' <= c <= '9'
}

/// A `max-age=<digits>` directive, the name in any case.
pub open spec fn is_max_age(d: Seq<char>) -> bool {
    &&& d.len() > 8
    &&& forall|i: int| 0 <= i < 8 ==> same_ignoring_case(#[trigger] d[i], max_age_prefix()[i])
    &&& forall|i: int| 8 <= i < d.len() ==> is_digit(#[trigger] d[i])
}

/// The number that a run of decimal digits writes.
pub open spec fn digits_value(ds: Seq<char>) -> nat
    decreases ds.len(),
{
    if ds.len() == 0 {
        0
    } else {
        digits_value(ds.drop_last()) * 10 + (ds.last() as nat - '0' as nat) as nat
    }
}

/// The seconds that the first `max-age` directive at or after `from` grants.
pub open spec fn max_age_from(s: Seq<char>, from: int) -> Option<nat>
    decreases s.len() - from
        via max_age_from_decreases
{
    if from < 0 || from > s.len() {
        None
    } else if is_max_age(directive_at(s, from)) {
        let d = directive_at(s, from);
        Some(digits_value(d.subrange(8, d.len() as int)))
    } else if next_comma(s, from) >= s.len() {
        None
    } else {
        max_age_from(s, next_comma(s, from) + 1)
    }
}

proof fn lemma_next_comma_bounds(s: Seq<char>, from: int)
    requires
        0 <= from,
    ensures
        from <= s.len() ==> from <= next_comma(s, from) <= s.len(),
    decreases s.len() - from,
{
    if from < s.len() && s[from] != ',' {
        lemma_next_comma_bounds(s, from + 1);
    }
}

#[via_fn]
proof fn max_age_from_decreases(s: Seq<char>, from: int) {
    if 0 <= from <= s.len() {
        lemma_next_comma_bounds(s, from);
    }
}

/// The lifetime a Cache-Control value grants a fetched key set: its first
/// `max-age`, capped to `u32::MAX`, or `default` when it has none.
pub open spec fn cache_lifetime(s: Seq<char>, default: u32) -> u32 {
    match max_age_from(s, 0) {
        Some(v) => if v > u32::MAX {
            u32::MAX
        } else {
            v as u32
        },
        None => default,
    }
}

proof fn lemma_next_comma_skip(s: Seq<char>, from: int, i: int)
    requires
        0 <= from <= i <= s.len(),
        forall|k: int| from <= k < i ==> s[k] != ',',
    ensures
        next_comma(s, from) == next_comma(s, i),
    decreases i - from,
{
    if from < i {
        lemma_next_comma_skip(s, from + 1, i);
    }
}

fn find_comma(s: &str, len: usize, from: usize) -> (r: usize)
    requires
        len == s@.len(),
        from <= len,
    ensures
        r == next_comma(s@, from as int),
        from <= r <= len,
{
    let mut i = from;
    while i < len
        invariant
            len == s@.len(),
            from <= i <= len,
            forall|k: int| from <= k < i ==> s@[k] != ',',
        decreases len - i,
    {
        if s.get_char(i) == ',' {
            proof {
                lemma_next_comma_skip(s@, from as int, i as int);
            }
            return i;
        }
        i = i + 1;
    }
    proof {
        lemma_next_comma_skip(s@, from as int, i as int);
    }
    len
}

fn is_blank(c: char) -> (r: bool)
    ensures
        r == is_space(c),
{
    c == ' ' || c == '\t'
}

/// The bounds of `s[start..end]` without surrounding blanks.
fn trim_bounds(s: &str, start: usize, end: usize) -> (r: (usize, usize))
    requires
        start <= end <= s@.len(),
    ensures
        start <= r.0 <= r.1 <= end,
        s@.subrange(r.0 as int, r.1 as int) == trim_end(trim_start(s@.subrange(start as int, end as int))),
{
    let mut a = start;
    while a < end && is_blank(s.get_char(a))
        invariant
            start <= a <= end <= s@.len(),
            trim_start(s@.subrange(start as int, end as int)) == trim_start(s@.subrange(a as int, end as int)),
        decreases end - a,
    {
        assert(s@.subrange(a as int, end as int).drop_first() =~= s@.subrange(a + 1, end as int));
        a = a + 1;
    }
    assert(trim_start(s@.subrange(a as int, end as int)) == s@.subrange(a as int, end as int));
    let mut b = end;
    while b > a && is_blank(s.get_char(b - 1))
        invariant
            start <= a <= b <= end <= s@.len(),
            trim_end(s@.subrange(a as int, end as int)) == trim_end(s@.subrange(a as int, b as int)),
        decreases b - a,
    {
        assert(s@.subrange(a as int, b as int).drop_last() =~= s@.subrange(a as int, b - 1));
        b = b - 1;
    }
    assert(trim_end(s@.subrange(a as int, b as int)) == s@.subrange(a as int, b as int));
    (a, b)
}

fn prefix_char(i: usize) -> (r: char)
    requires
        i < 8,
    ensures
        r == max_age_prefix()[i as int],
{
    match i {
        0 => 'm',
        1 => 'a',
        2 => 'x',
        3 => '-',
        4 => 'a',
        5 => 'g',
        6 => 'e',
        _ => '=',
    }
}

fn char_matches(c: char, e: char) -> (r: bool)
    ensures
        r == same_ignoring_case(c, e),
{
    c == e || ('A' <= c && c <= 'Z' && c as u32 + 32 == e as u32)
}

/// Whether `s[a..b]` is a `max-age` directive.
fn directive_is_max_age(s: &str, a: usize, b: usize) -> (r: bool)
    requires
        a <= b <= s@.len(),
    ensures
        r == is_max_age(s@.subrange(a as int, b as int)),
{
    let ghost d = s@.subrange(a as int, b as int);
    if b - a <= 8 {
        return false;
    }
    let mut i: usize = 0;
    while i < 8
        invariant
            a + 8 < b <= s@.len(),
            d == s@.subrange(a as int, b as int),
            i <= 8,
            forall|k: int| 0 <= k < i ==> same_ignoring_case(#[trigger] d[k], max_age_prefix()[k]),
        decreases 8 - i,
    {
        if !char_matches(s.get_char(a + i), prefix_char(i)) {
            assert(!same_ignoring_case(d[i as int], max_age_prefix()[i as int]));
            return false;
        }
        i = i + 1;
    }
    let mut j: usize = a + 8;
    while j < b
        invariant
            a + 8 <= j <= b <= s@.len(),
            d == s@.subrange(a as int, b as int),
            forall|k: int| 0 <= k < 8 ==> same_ignoring_case(#[trigger] d[k], max_age_prefix()[k]),
            forall|k: int| 8 <= k < j - a ==> is_digit(#[trigger] d[k]),
        decreases b - j,
    {
        let c = s.get_char(j);
        if !('0' <= c && c <= '9') {
            assert(!is_digit(d[j - a]));
            return false;
        }
        j = j + 1;
    }
    true
}

/// The value of the digits `s[a..b]`, capped just above `u32::MAX`.
fn digits_capped(s: &str, a: usize, b: usize) -> (r: u64)
    requires
        a <= b <= s@.len(),
        forall|k: int| a <= k < b ==> is_digit(#[trigger] s@[k]),
    ensures
        r as nat == if digits_value(s@.subrange(a as int, b as int)) > u32::MAX {
            u32::MAX as nat + 1
        } else {
            digits_value(s@.subrange(a as int, b as int))
        },
{
    let cap: u64 = 4294967296;
    let mut v: u64 = 0;
    let mut j = a;
    assert(s@.subrange(a as int, a as int) =~= Seq::<char>::empty());
    while j < b
        invariant
            a <= j <= b <= s@.len(),
            cap == 4294967296,
            forall|k: int| a <= k < b ==> is_digit(#[trigger] s@[k]),
            v as nat == if digits_value(s@.subrange(a as int, j as int)) >= cap {
                cap as nat
            } else {
                digits_value(s@.subrange(a as int, j as int))
            },
        decreases b - j,
    {
        let c = s.get_char(j);
        assert(is_digit(s@[j as int]));
        let digit = (c as u32 - '0' as u32) as u64;
        let ghost prev = digits_value(s@.subrange(a as int, j as int));
        assert(s@.subrange(a as int, j + 1).drop_last() =~= s@.subrange(a as int, j as int));
        assert(s@.subrange(a as int, j + 1).last() == c);
        assert(digits_value(s@.subrange(a as int, j + 1)) == prev * 10 + digit);
        if v >= cap {
            assert(prev * 10 + digit >= cap) by (nonlinear_arith)
                requires
                    prev >= cap,
                    digit >= 0,
            ;
        } else {
            assert(v < cap);
            assert(v * 10 + digit < 42949672960) by (nonlinear_arith)
                requires
                    v < cap,
                    cap == 4294967296,
                    digit <= 9,
            ;
            v = v * 10 + digit;
            if v >= cap {
                v = cap;
            }
        }
        j = j + 1;
    }
    v
}

/// The lifetime (seconds) that a Cache-Control value grants a fetched key
/// set: the first `max-age` directive, capped to `u32::MAX`, or `default`
/// when there is none.
pub fn lifetime_from_cache_control(value: &str, default: u32) -> (r: u32)
    ensures
        r == cache_lifetime(value@, default),
{
    let len = value.unicode_len();
    let mut from: usize = 0;
    while from <= len
        invariant
            len == value@.len(),
            max_age_from(value@, 0) == max_age_from(value@, from as int),
        decreases len + 1 - from,
    {
        let end = find_comma(value, len, from);
        let (a, b) = trim_bounds(value, from, end);
        if directive_is_max_age(value, a, b) {
            proof {
                let d = value@.subrange(a as int, b as int);
                assert forall|k: int| a + 8 <= k < b implies is_digit(#[trigger] value@[k]) by {
                    assert(value@[k] == d[k - a]);
                }
                assert(value@.subrange(a + 8, b as int) =~= d.subrange(8, d.len() as int));
            }
            let v = digits_capped(value, a + 8, b);
            if v > 0xffff_ffff {
                return u32::MAX;
            }
            return v as u32;
        }
        if end >= len {
            return default;
        }
        from = end + 1;
    }
    default
}

} // verus!
