//! Splitting text into pieces, tokens and lines, and searching it.
use vstd::prelude::*;

verus! {

/// The characters that Unicode classifies as `White_Space`.
pub open spec fn is_blank(c: char) -> bool {
    ('\u{9}' <= c && c <= '\u{d}') || c == ' ' || c == '\u{85}' || c == '\u{a0}'
        || c == '\u{1680}' || ('\u{2000}' <= c && c <= '\u{200a}') || c == '\u{2028}'
        || c == '\u{2029}' || c == '\u{202f}' || c == '\u{205f}' || c == '\u{3000}'
}

/// The separator of lines, or the separator of tokens.
pub open spec fn separator(blank: bool) -> spec_fn(char) -> bool {
    if blank {
        |c: char| is_blank(c)
    } else {
        |c: char| c == '\n'
    }
}

/// The pieces between separators, empty ones included: `n` separators give
/// `n + 1` pieces.
pub open spec fn pieces(s: Seq<char>, sep: spec_fn(char) -> bool) -> Seq<Seq<char>>
    decreases s.len(),
{
    if s.len() == 0 {
        seq![Seq::empty()]
    } else {
        let p = pieces(s.drop_last(), sep);
        if sep(s.last()) {
            p.push(Seq::empty())
        } else {
            p.update(p.len() - 1, p.last().push(s.last()))
        }
    }
}

pub open spec fn non_empty() -> spec_fn(Seq<char>) -> bool {
    |t: Seq<char>| t.len() > 0
}

/// The lines of `s`, split at each newline, empty lines included.
pub open spec fn lines(s: Seq<char>) -> Seq<Seq<char>> {
    pieces(s, separator(false))
}

/// The tokens of `s`: the maximal runs of characters that are not blank.
pub open spec fn tokens(s: Seq<char>) -> Seq<Seq<char>> {
    pieces(s, separator(true)).filter(non_empty())
}

/// `p` occurs in `s` at some position.
pub open spec fn occurs_in(p: Seq<char>, s: Seq<char>) -> bool {
    exists|i: int| 0 <= i && i + p.len() <= s.len() && #[trigger] s.subrange(i, i + p.len()) == p
}

pub open spec fn views(v: Seq<String>) -> Seq<Seq<char>> {
    v.map_values(|x: String| x@)
}

/// The characters of `s`, in order.
pub fn chars_of(s: &str) -> (r: Vec<char>)
    ensures
        r@ == s@,
{
    let n = s.unicode_len();
    let mut out: Vec<char> = Vec::new();
    let mut i: usize = 0;
    while i < n
        invariant
            n == s@.len(),
            i <= n,
            out@ == s@.subrange(0, i as int),
        decreases n - i,
    {
        out.push(s.get_char(i));
        i = i + 1;
        assert(out@ =~= s@.subrange(0, i as int));
    }
    assert(out@ =~= s@);
    out
}

/// Whether `c` is blank, as `is_blank` states it.
pub fn blank_char(c: char) -> (r: bool)
    ensures
        r == is_blank(c),
{
    ('\u{9}' <= c && c <= '\u{d}') || c == ' ' || c == '\u{85}' || c == '\u{a0}'
        || c == '\u{1680}' || ('\u{2000}' <= c && c <= '\u{200a}') || c == '\u{2028}'
        || c == '\u{2029}' || c == '\u{202f}' || c == '\u{205f}' || c == '\u{3000}'
}

fn split_pieces(s: &str, blank: bool) -> (r: Vec<String>)
    ensures
        views(r@) == pieces(s@, separator(blank)),
{
    let cs = chars_of(s);
    let n = cs.len();
    let mut done: Vec<String> = Vec::new();
    let mut start: usize = 0;
    let mut i: usize = 0;
    assert(cs@.subrange(0, 0) =~= Seq::<char>::empty());
    assert(views(done@).push(cs@.subrange(0, 0)) =~= seq![Seq::<char>::empty()]);
    while i < n
        invariant
            cs@ == s@,
            n == cs.len(),
            start <= i <= n,
            pieces(cs@.subrange(0, i as int), separator(blank)) == views(done@).push(
                cs@.subrange(start as int, i as int),
            ),
        decreases n - i,
    {
        let c = cs[i];
        let ghost pre = cs@.subrange(0, i as int);
        let ghost next = cs@.subrange(0, i + 1);
        assert(next.drop_last() =~= pre);
        assert(next.last() == c);
        let sep = if blank {
            blank_char(c)
        } else {
            c == '\n'
        };
        let ghost done0 = views(done@);
        let ghost start0 = start;
        if sep {
            let piece = String::from_str(s.substring_char(start, i));
            done.push(piece);
            start = i + 1;
            assert(views(done@) =~= done0.push(cs@.subrange(start0 as int, i as int)));
            assert(cs@.subrange(start as int, i + 1) =~= Seq::<char>::empty());
        } else {
            assert(cs@.subrange(start as int, i + 1) =~= cs@.subrange(start as int, i as int).push(c));
            assert(views(done@).push(cs@.subrange(start as int, i + 1)) =~= done0.push(
                cs@.subrange(start as int, i as int),
            ).update(done0.len() as int, cs@.subrange(start as int, i as int).push(c)));
        }
        i = i + 1;
    }
    proof {
        assert(cs@.subrange(0, n as int) =~= s@);
    }
    let ghost done0 = views(done@);
    let last = String::from_str(s.substring_char(start, n));
    done.push(last);
    assert(views(done@) =~= done0.push(cs@.subrange(start as int, n as int)));
    done
}

/// Splits `s` at each newline; a final newline leaves an empty last line.
pub fn split_lines(s: &str) -> (r: Vec<String>)
    ensures
        views(r@) == lines(s@),
{
    split_pieces(s, false)
}

/// The runs of non-blank characters of `s`, in order.
pub fn split_tokens(s: &str) -> (r: Vec<String>)
    ensures
        views(r@) == tokens(s@),
{
    let all = split_pieces(s, true);
    let ghost pv = views(all@);
    let mut out: Vec<String> = Vec::new();
    let mut k: usize = 0;
    assert(pv.subrange(0, 0).filter(non_empty()) =~= Seq::<Seq<char>>::empty()) by {
        reveal(Seq::filter);
    }
    while k < all.len()
        invariant
            pv == views(all@),
            k <= all.len(),
            views(out@) == pv.subrange(0, k as int).filter(non_empty()),
        decreases all.len() - k,
    {
        let ghost out0 = views(out@);
        let ghost next = pv.subrange(0, k + 1);
        assert(next.drop_last() =~= pv.subrange(0, k as int));
        assert(next.last() == all@[k as int]@);
        assert(next.filter(non_empty()) == if non_empty()(next.last()) {
            out0.push(next.last())
        } else {
            out0
        }) by {
            reveal(Seq::filter);
        }
        let t = &all[k];
        if t.unicode_len() > 0 {
            out.push(t.clone());
            assert(views(out@) =~= out0.push(next.last()));
        }
        k = k + 1;
    }
    assert(pv.subrange(0, all.len() as int) =~= pv);
    out
}

/// Whether `p` occurs in `s`.
pub fn has_substring(s: &str, p: &str) -> (r: bool)
    ensures
        r == occurs_in(p@, s@),
{
    let cs = chars_of(s);
    let ps = chars_of(p);
    if ps.len() > cs.len() {
        return false;
    }
    let last = cs.len() - ps.len();
    let mut i: usize = 0;
    while i <= last
        invariant
            cs@ == s@,
            ps@ == p@,
            last == cs.len() - ps.len(),
            ps.len() <= cs.len(),
            forall|k: int| 0 <= k < i ==> #[trigger] cs@.subrange(k, k + ps.len()) != ps@,
        decreases last + 1 - i,
    {
        let mut j: usize = 0;
        let mut same = true;
        while j < ps.len() && same
            invariant
                i <= last,
                last == cs.len() - ps.len(),
                j <= ps.len(),
                same == (forall|m: int| 0 <= m < j ==> cs@[i + m] == ps@[m]),
            decreases ps.len() - j,
        {
            if cs[i + j] != ps[j] {
                same = false;
            }
            j = j + 1;
        }
        if same {
            assert(cs@.subrange(i as int, i + ps.len()) =~= ps@);
            return true;
        }
        assert(cs@.subrange(i as int, i + ps.len()) != ps@) by {
            let m = choose|m: int| 0 <= m < j && cs@[i + m] != ps@[m];
            assert(cs@.subrange(i as int, i + ps.len())[m] != ps@[m]);
        }
        i = i + 1;
    }
    false
}

} // verus!
