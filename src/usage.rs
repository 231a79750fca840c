//! The utilization of a filesystem, read from its `percent_used` text, and
//! the level that decides how a report colours it.
use vstd::prelude::*;

use crate::record::DriveView;
use crate::text::chars_of;

verus! {

pub open spec fn not_percent() -> spec_fn(char) -> bool {
    |c: char| c != '%'
}

/// The text with every `%` taken out.
pub open spec fn without_percent(s: Seq<char>) -> Seq<char> {
    s.filter(not_percent())
}

pub open spec fn is_digit(c: char) -> bool {
    '0' <= c && c <= '9'
}

pub open spec fn all_digits(d: Seq<char>) -> bool {
    forall|i: int| 0 <= i < d.len() ==> is_digit(#[trigger] d[i])
}

/// The value of a sequence of decimal digits.
pub open spec fn digits_value(d: Seq<char>) -> int
    decreases d.len(),
{
    if d.len() == 0 {
        0
    } else {
        10 * digits_value(d.drop_last()) + (d.last() as int - '0' as int)
    }
}

/// A decimal `i32`: an optional sign, then one digit or more, with the
/// value in range.
pub open spec fn parse_i32(t: Seq<char>) -> Option<int> {
    let signed = t.len() > 0 && (t[0] == '-' || t[0] == '+');
    let d = if signed {
        t.drop_first()
    } else {
        t
    };
    let v = if t.len() > 0 && t[0] == '-' {
        -digits_value(d)
    } else {
        digits_value(d)
    };
    if d.len() > 0 && all_digits(d) && i32::MIN <= v <= i32::MAX {
        Some(v)
    } else {
        None
    }
}

/// The utilization that `percent_used` gives: its integer once each `%` is
/// taken out, or 0 where that is no integer.
pub open spec fn utilization_of(percent_used: Seq<char>) -> int {
    match parse_i32(without_percent(percent_used)) {
        Some(v) => v,
        None => 0,
    }
}

/// How full a filesystem is, as a report colours it.
#[derive(Clone, Copy, Debug, PartialEq, Eq, Structural)]
pub enum Level {
    /// Under 40: green.
    Healthy,
    /// From 40 to under 80: yellow.
    Caution,
    /// 80 and above: red.
    Critical,
}

pub open spec fn level_spec(u: int) -> Level {
    if u < 40 {
        Level::Healthy
    } else if u < 80 {
        Level::Caution
    } else {
        Level::Critical
    }
}

proof fn lemma_digits_prefix(d: Seq<char>, k: int)
    requires
        0 <= k <= d.len(),
        all_digits(d),
    ensures
        0 <= digits_value(d.subrange(0, k)) <= digits_value(d),
    decreases d.len(),
{
    if k < d.len() {
        lemma_digits_prefix(d.drop_last(), k);
        assert(d.drop_last().subrange(0, k) =~= d.subrange(0, k));
        assert(is_digit(d[d.len() - 1]));
    } else {
        assert(d.subrange(0, k) =~= d);
        if d.len() > 0 {
            lemma_digits_prefix(d.drop_last(), k - 1);
            assert(d.drop_last().subrange(0, k - 1) =~= d.drop_last());
            assert(is_digit(d[d.len() - 1]));
        }
    }
}

fn strip_percent(s: &str) -> (r: Vec<char>)
    ensures
        r@ == without_percent(s@),
{
    let cs = chars_of(s);
    let mut out: Vec<char> = Vec::new();
    let mut k: usize = 0;
    assert(cs@.subrange(0, 0).filter(not_percent()) =~= Seq::<char>::empty()) by {
        reveal(Seq::filter);
    }
    while k < cs.len()
        invariant
            cs@ == s@,
            k <= cs.len(),
            out@ == cs@.subrange(0, k as int).filter(not_percent()),
        decreases cs.len() - k,
    {
        let ghost next = cs@.subrange(0, k + 1);
        assert(next.drop_last() =~= cs@.subrange(0, k as int));
        assert(next.filter(not_percent()) == if not_percent()(next.last()) {
            out@.push(next.last())
        } else {
            out@
        }) by {
            reveal(Seq::filter);
        }
        if cs[k] != '%' {
            out.push(cs[k]);
        }
        k = k + 1;
    }
    assert(cs@.subrange(0, cs.len() as int) =~= cs@);
    out
}

fn parse_decimal(t: &Vec<char>) -> (r: Option<i32>)
    ensures
        r matches Some(v) ==> parse_i32(t@) == Some(v as int),
        r is None ==> parse_i32(t@) is None,
{
    let n = t.len();
    let signed = n > 0 && (t[0] == '-' || t[0] == '+');
    let neg = n > 0 && t[0] == '-';
    let start: usize = if signed {
        1
    } else {
        0
    };
    let ghost d = if signed {
        t@.drop_first()
    } else {
        t@
    };
    assert(d =~= t@.subrange(start as int, n as int));
    if start == n {
        return None;
    }
    let mut acc: u64 = 0;
    let mut j: usize = start;
    assert(d.subrange(0, 0) =~= Seq::<char>::empty());
    while j < n
        invariant
            start <= j <= n,
            n == t.len(),
            d == t@.subrange(start as int, n as int),
            signed == (t@.len() > 0 && (t@[0] == '-' || t@[0] == '+')),
            neg == (t@.len() > 0 && t@[0] == '-'),
            d == if signed {
                t@.drop_first()
            } else {
                t@
            },
            forall|m: int| start <= m < j ==> is_digit(#[trigger] t@[m]),
            acc as int == digits_value(d.subrange(0, j - start)),
            acc <= 2147483648,
        decreases n - j,
    {
        let c = t[j];
        if !('0' <= c && c <= '9') {
            assert(d[j - start] == c);
            assert(!is_digit(d[j - start]));
            return None;
        }
        let ghost p = d.subrange(0, j + 1 - start);
        assert(p.drop_last() =~= d.subrange(0, j - start));
        acc = acc * 10 + (c as u64 - '0' as u64);
        assert(p.last() == c);
        assert(acc as int == digits_value(p));
        j = j + 1;
        if acc > 2147483648 {
            proof {
                if all_digits(d) {
                    lemma_digits_prefix(d, j - start);
                }
            }
            return None;
        }
    }
    assert(d.subrange(0, n - start) =~= d);
    assert(all_digits(d));
    if neg {
        Some((0 - acc as i64) as i32)
    } else if acc <= 2147483647 {
        Some(acc as i32)
    } else {
        None
    }
}

/// The utilization that `percent_used` gives, as `utilization_of` states.
pub fn utilization(percent_used: &str) -> (r: i32)
    ensures
        r as int == utilization_of(percent_used@),
{
    let t = strip_percent(percent_used);
    match parse_decimal(&t) {
        Some(v) => v,
        None => 0,
    }
}

/// The level of a utilization: under 40, under 80, or above.
pub fn level_of(utilization: i32) -> (r: Level)
    ensures
        r == level_spec(utilization as int),
{
    if utilization < 40 {
        Level::Healthy
    } else if utilization < 80 {
        Level::Caution
    } else {
        Level::Critical
    }
}

/// Every record of a collection falls in exactly one level by the
/// utilization of its `percent_used`: `Healthy` below 40, `Caution` from 40
/// up to but not including 80, `Critical` from 80 on. Text that is no
/// integer counts as 0, and so as `Healthy`.
pub proof fn lemma_levels_partition(v: Seq<DriveView>)
    ensures
        forall|i: int|
            0 <= i < v.len() ==> {
                let u = #[trigger] utilization_of(v[i].percent_used);
                &&& (level_spec(u) == Level::Healthy) <==> u < 40
                &&& (level_spec(u) == Level::Caution) <==> (40 <= u && u < 80)
                &&& (level_spec(u) == Level::Critical) <==> u >= 80
            },
        forall|i: int|
            0 <= i < v.len() && parse_i32(without_percent(v[i].percent_used)) is None
                ==> level_spec(#[trigger] utilization_of(v[i].percent_used)) == Level::Healthy,
{
}

} // verus!
