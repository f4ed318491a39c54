//! Character-level splitting of request text, each operation stated over `Seq<char>`.
use vstd::prelude::*;
use vstd::std_specs::iter::IteratorSpec;

verus! {

/// Unicode white space, as `char::is_whitespace` defines it.
pub open spec fn is_ws(c: char) -> bool {
    c == '\t' || c == '\n' || c == '\x0B' || c == '\x0C' || c == '\r' || c == ' ' || c == '\u{85}'
        || c == '\u{A0}' || c == '\u{1680}' || (0x2000 <= c as u32 && c as u32 <= 0x200A)
        || c == '\u{2028}' || c == '\u{2029}' || c == '\u{202F}' || c == '\u{205F}' || c
        == '\u{3000}'
}

pub fn is_whitespace(c: char) -> (r: bool)
    ensures
        r == is_ws(c),
{
    let u = c as u32;
    c == '\t' || c == '\n' || c == '\x0B' || c == '\x0C' || c == '\r' || c == ' ' || c == '\u{85}'
        || c == '\u{A0}' || c == '\u{1680}' || (0x2000 <= u && u <= 0x200A) || c == '\u{2028}'
        || c == '\u{2029}' || c == '\u{202F}' || c == '\u{205F}' || c == '\u{3000}'
}

/// The separators that request text is split on.
#[derive(Clone, Copy)]
pub enum Sep {
    Newline,
    Semicolon,
    Whitespace,
}

pub open spec fn is_sep(sep: Sep, c: char) -> bool {
    match sep {
        Sep::Newline => c == '\n',
        Sep::Semicolon => c == ';',
        Sep::Whitespace => is_ws(c),
    }
}

fn sep_at(sep: Sep, c: char) -> (r: bool)
    ensures
        r == is_sep(sep, c),
{
    match sep {
        Sep::Newline => c == '\n',
        Sep::Semicolon => c == ';',
        Sep::Whitespace => is_whitespace(c),
    }
}

/// The pieces between separators, empty ones included (`str::split`).
pub open spec fn pieces(s: Seq<char>, sep: Sep) -> Seq<Seq<char>>
    decreases s.len(),
{
    if s.len() == 0 {
        seq![Seq::<char>::empty()]
    } else {
        let p = pieces(s.drop_last(), sep);
        if is_sep(sep, s.last()) {
            p.push(Seq::<char>::empty())
        } else {
            p.update(p.len() - 1, p.last().push(s.last()))
        }
    }
}

/// The non-empty members of `ps`, in order.
pub open spec fn nonempty(ps: Seq<Seq<char>>) -> Seq<Seq<char>>
    decreases ps.len(),
{
    if ps.len() == 0 {
        Seq::<Seq<char>>::empty()
    } else {
        let r = nonempty(ps.drop_last());
        if ps.last().len() > 0 {
            r.push(ps.last())
        } else {
            r
        }
    }
}

/// The words of `s` (`str::split_whitespace`).
pub open spec fn words(s: Seq<char>) -> Seq<Seq<char>> {
    nonempty(pieces(s, Sep::Whitespace))
}

pub open spec fn strip_cr(l: Seq<char>) -> Seq<char> {
    if l.len() > 0 && l.last() == '\r' {
        l.drop_last()
    } else {
        l
    }
}

/// The lines of `s` (`str::lines`): split on line feeds, a final line feed ends
/// the last line rather than starting an empty one, and a carriage return
/// before a line feed is dropped.
pub open spec fn lines(s: Seq<char>) -> Seq<Seq<char>> {
    if s.len() == 0 {
        Seq::<Seq<char>>::empty()
    } else {
        let p = pieces(s, Sep::Newline);
        if s.last() == '\n' {
            Seq::new((p.len() - 1) as nat, |i: int| strip_cr(p[i]))
        } else {
            Seq::new(p.len(), |i: int| if i < p.len() - 1 { strip_cr(p[i]) } else { p[i] })
        }
    }
}

pub open spec fn trim_start(s: Seq<char>) -> Seq<char>
    decreases s.len(),
{
    if s.len() > 0 && is_ws(s[0]) {
        trim_start(s.drop_first())
    } else {
        s
    }
}

pub open spec fn trim_end(s: Seq<char>) -> Seq<char>
    decreases s.len(),
{
    if s.len() > 0 && is_ws(s.last()) {
        trim_end(s.drop_last())
    } else {
        s
    }
}

/// `s` without white space at either end (`str::trim`).
pub open spec fn trim(s: Seq<char>) -> Seq<char> {
    trim_end(trim_start(s))
}

/// Position of the first `c` in `s`, or `s.len()` where there is none.
pub open spec fn find_char(s: Seq<char>, c: char) -> nat
    decreases s.len(),
{
    if s.len() == 0 {
        0
    } else if s[0] == c {
        0
    } else {
        1 + find_char(s.drop_first(), c)
    }
}

pub open spec fn slice_of(s: Seq<char>, r: (usize, usize)) -> Seq<char> {
    s.subrange(r.0 as int, r.1 as int)
}

pub open spec fn slices(s: Seq<char>, rs: Seq<(usize, usize)>) -> Seq<Seq<char>> {
    rs.map_values(|r: (usize, usize)| slice_of(s, r))
}

pub open spec fn ranges_within(rs: Seq<(usize, usize)>, lo: int, hi: int) -> bool {
    forall|i: int| 0 <= i < rs.len() ==> lo <= #[trigger] rs[i].0 <= rs[i].1 <= hi
}

/// Whether two texts are equal.
pub fn text_eq(a: &str, b: &str) -> (r: bool)
    ensures
        r == (a@ == b@),
{
    let a = a.to_owned();
    let b = b.to_owned();
    a.eq(&b)
}

/// The characters of `s`, in order.
pub fn chars_of(s: &str) -> (r: Vec<char>)
    ensures
        r@ == s@,
{
    broadcast use vstd::string::group_string_axioms;

    let mut it = s.chars();
    let mut r: Vec<char> = Vec::new();
    loop
        invariant
            it.obeys_prophetic_iter_laws(),
            it.decrease() is Some,
            r@ + it.remaining() == s@,
        ensures
            r@ == s@,
        decreases it.decrease()->0,
    {
        let ghost before = it.remaining();
        match it.next() {
            Some(c) => {
                r.push(c);
            },
            None => {
                proof {
                    assert(before.len() == 0);
                    assert(r@ =~= s@);
                }
                break;
            },
        }
    }
    r
}

/// The ranges of the pieces of `chars[lo..hi]` between separators.
pub fn split_ranges(chars: &Vec<char>, lo: usize, hi: usize, sep: Sep) -> (rs: Vec<(usize, usize)>)
    requires
        lo <= hi <= chars@.len(),
    ensures
        ranges_within(rs@, lo as int, hi as int),
        slices(chars@, rs@) == pieces(chars@.subrange(lo as int, hi as int), sep),
{
    let mut rs: Vec<(usize, usize)> = Vec::new();
    let mut start: usize = lo;
    let mut i: usize = lo;
    proof {
        assert(chars@.subrange(lo as int, lo as int) =~= Seq::<char>::empty());
        assert(slices(chars@, rs@).push(chars@.subrange(start as int, i as int)) =~= seq![
            Seq::<char>::empty(),
        ]);
    }
    while i < hi
        invariant
            lo <= start <= i <= hi <= chars@.len(),
            ranges_within(rs@, lo as int, i as int),
            slices(chars@, rs@).push(chars@.subrange(start as int, i as int)) == pieces(
                chars@.subrange(lo as int, i as int),
                sep,
            ),
        decreases hi - i,
    {
        let ghost old_rs = rs@;
        proof {
            assert(chars@.subrange(lo as int, i + 1).drop_last() =~= chars@.subrange(
                lo as int,
                i as int,
            ));
            assert(chars@.subrange(lo as int, i + 1).last() == chars@[i as int]);
        }
        if sep_at(sep, chars[i]) {
            rs.push((start, i));
            proof {
                assert(slices(chars@, rs@) =~= slices(chars@, old_rs).push(
                    chars@.subrange(start as int, i as int),
                ));
                assert(chars@.subrange(i + 1, i + 1) =~= Seq::<char>::empty());
            }
            start = i + 1;
        } else {
            proof {
                assert(chars@.subrange(start as int, i + 1) =~= chars@.subrange(
                    start as int,
                    i as int,
                ).push(chars@[i as int]));
                let p = slices(chars@, old_rs).push(chars@.subrange(start as int, i as int));
                assert(p.update(p.len() - 1, p.last().push(chars@[i as int])) =~= slices(
                    chars@,
                    old_rs,
                ).push(chars@.subrange(start as int, i + 1)));
            }
        }
        i += 1;
    }
    let ghost before = rs@;
    rs.push((start, hi));
    proof {
        assert(slices(chars@, rs@) =~= slices(chars@, before).push(
            chars@.subrange(start as int, hi as int),
        ));
    }
    rs
}

/// The ranges of the words of `chars[lo..hi]`.
pub fn word_ranges(chars: &Vec<char>, lo: usize, hi: usize) -> (ws: Vec<(usize, usize)>)
    requires
        lo <= hi <= chars@.len(),
    ensures
        ranges_within(ws@, lo as int, hi as int),
        slices(chars@, ws@) == words(chars@.subrange(lo as int, hi as int)),
{
    let rs = split_ranges(chars, lo, hi, Sep::Whitespace);
    let ghost all = slices(chars@, rs@);
    let mut ws: Vec<(usize, usize)> = Vec::new();
    let mut k: usize = 0;
    proof {
        assert(all.subrange(0, 0) =~= Seq::<Seq<char>>::empty());
        assert(slices(chars@, ws@) =~= Seq::<Seq<char>>::empty());
    }
    while k < rs.len()
        invariant
            k <= rs@.len(),
            lo <= hi <= chars@.len(),
            all == slices(chars@, rs@),
            ranges_within(rs@, lo as int, hi as int),
            ranges_within(ws@, lo as int, hi as int),
            slices(chars@, ws@) == nonempty(all.subrange(0, k as int)),
        decreases rs@.len() - k,
    {
        let ghost old_ws = ws@;
        let r = rs[k];
        proof {
            assert(all.subrange(0, k + 1).drop_last() =~= all.subrange(0, k as int));
            assert(all.subrange(0, k + 1).last() == slice_of(chars@, r));
            assert(lo <= rs@[k as int].0 <= rs@[k as int].1 <= hi);
            assert(slice_of(chars@, r).len() == r.1 - r.0);
        }
        if r.0 < r.1 {
            ws.push(r);
            proof {
                assert(slices(chars@, ws@) =~= slices(chars@, old_ws).push(slice_of(chars@, r)));
            }
        }
        k += 1;
    }
    proof {
        assert(all.subrange(0, rs@.len() as int) =~= all);
    }
    ws
}

/// The range of `trim(chars[lo..hi])`.
pub fn trim_range(chars: &Vec<char>, lo: usize, hi: usize) -> (r: (usize, usize))
    requires
        lo <= hi <= chars@.len(),
    ensures
        lo <= r.0 <= r.1 <= hi,
        slice_of(chars@, r) == trim(chars@.subrange(lo as int, hi as int)),
{
    let mut a: usize = lo;
    while a < hi && is_whitespace(chars[a])
        invariant
            lo <= a <= hi <= chars@.len(),
            trim_start(chars@.subrange(lo as int, hi as int)) == trim_start(
                chars@.subrange(a as int, hi as int),
            ),
        decreases hi - a,
    {
        proof {
            assert(chars@.subrange(a as int, hi as int).drop_first() =~= chars@.subrange(
                a + 1,
                hi as int,
            ));
        }
        a += 1;
    }
    let mut b: usize = hi;
    while b > a && is_whitespace(chars[b - 1])
        invariant
            lo <= a <= b <= hi <= chars@.len(),
            trim_end(chars@.subrange(a as int, hi as int)) == trim_end(
                chars@.subrange(a as int, b as int),
            ),
        decreases b - a,
    {
        proof {
            assert(chars@.subrange(a as int, b as int).drop_last() =~= chars@.subrange(
                a as int,
                b - 1,
            ));
        }
        b -= 1;
    }
    (a, b)
}

/// The position of the first `c` in `chars[lo..hi]`, or `hi`.
pub fn find_in(chars: &Vec<char>, lo: usize, hi: usize, c: char) -> (k: usize)
    requires
        lo <= hi <= chars@.len(),
    ensures
        lo <= k <= hi,
        k - lo == find_char(chars@.subrange(lo as int, hi as int), c),
{
    let mut i: usize = lo;
    while i < hi && chars[i] != c
        invariant
            lo <= i <= hi <= chars@.len(),
            find_char(chars@.subrange(lo as int, hi as int), c) == (i - lo) + find_char(
                chars@.subrange(i as int, hi as int),
                c,
            ),
        decreases hi - i,
    {
        proof {
            assert(chars@.subrange(i as int, hi as int).drop_first() =~= chars@.subrange(
                i + 1,
                hi as int,
            ));
        }
        i += 1;
    }
    i
}

/// Whether `chars[lo..hi]` begins with `pre`.
pub fn has_prefix(chars: &Vec<char>, lo: usize, hi: usize, pre: &Vec<char>) -> (r: bool)
    requires
        lo <= hi <= chars@.len(),
    ensures
        r == (pre@.len() <= hi - lo && chars@.subrange(lo as int, lo + pre@.len()) == pre@),
{
    if pre.len() > hi - lo {
        return false;
    }
    let mut j: usize = 0;
    while j < pre.len()
        invariant
            j <= pre@.len() <= hi - lo,
            hi <= chars@.len(),
            forall|t: int| 0 <= t < j ==> chars@[lo + t] == pre@[t],
        decreases pre@.len() - j,
    {
        if chars[lo + j] != pre[j] {
            proof {
                assert(chars@.subrange(lo as int, lo + pre@.len())[j as int] != pre@[j as int]);
            }
            return false;
        }
        j += 1;
    }
    proof {
        assert(chars@.subrange(lo as int, lo + pre@.len()) =~= pre@);
    }
    true
}

/// The ranges of the lines of `chars`.
pub fn line_ranges(chars: &Vec<char>) -> (ls: Vec<(usize, usize)>)
    ensures
        ranges_within(ls@, 0, chars@.len() as int),
        slices(chars@, ls@) == lines(chars@),
{
    let n = chars.len();
    if n == 0 {
        let ls: Vec<(usize, usize)> = Vec::new();
        proof {
            assert(slices(chars@, ls@) =~= lines(chars@));
        }
        return ls;
    }
    let rs = split_ranges(chars, 0, n, Sep::Newline);
    proof {
        assert(chars@.subrange(0, n as int) =~= chars@);
    }
    let ends_nl = chars[n - 1] == '\n';
    let ghost p = pieces(chars@, Sep::Newline);
    let count: usize = if ends_nl {
        proof {
            assert(p.len() > 0) by {
                assert(chars@.drop_last().len() < chars@.len());
                let q = pieces(chars@.drop_last(), Sep::Newline);
                assert(p == q.push(Seq::<char>::empty()));
            }
            assert(slices(chars@, rs@).len() == rs@.len());
        }
        rs.len() - 1
    } else {
        rs.len()
    };
    let mut ls: Vec<(usize, usize)> = Vec::new();
    let mut k: usize = 0;
    while k < count
        invariant
            count <= rs@.len(),
            n == chars@.len(),
            n > 0,
            ends_nl == (chars@.last() == '\n'),
            count == (if ends_nl { rs@.len() - 1 } else { rs@.len() as int }),
            p == pieces(chars@, Sep::Newline),
            slices(chars@, rs@) == p,
            ranges_within(rs@, 0, n as int),
            ranges_within(ls@, 0, n as int),
            ls@.len() == k,
            k <= count,
            forall|t: int|
                0 <= t < k ==> slice_of(chars@, #[trigger] ls@[t]) == lines(chars@)[t],
        decreases count - k,
    {
        let r = rs[k];
        proof {
            assert(slice_of(chars@, r) == p[k as int]);
        }
        let strip = (ends_nl || k + 1 < count) && r.0 < r.1 && chars[r.1 - 1] == '\r';
        if strip {
            ls.push((r.0, r.1 - 1));
            proof {
                assert(slice_of(chars@, (r.0, (r.1 - 1) as usize)) =~= slice_of(chars@, r).drop_last());
            }
        } else {
            ls.push(r);
        }
        k += 1;
    }
    proof {
        assert(slices(chars@, ls@) =~= lines(chars@));
    }
    ls
}

} // verus!
