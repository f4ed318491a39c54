//! Framing a request: method, path, the recognised headers, cookies and body.
use vstd::prelude::*;
use crate::text::{
    chars_of, find_char, find_in, has_prefix, line_ranges, lines, pieces, ranges_within, slice_of,
    slices, split_ranges, text_eq, trim, trim_range, word_ranges, words, Sep,
};

verus! {

/// A framed request. Fields that the text does not supply take their defaults.
pub struct RawRequest {
    pub method: String,
    pub path: String,
    /// The value of the `authorization` header.
    pub authorization: Option<String>,
    /// The (name, value) pairs of the `Cookie` header, if it has any.
    pub cookies: Option<Vec<(String, String)>>,
    pub body: String,
}

pub type PairsModel = Seq<(Seq<char>, Seq<char>)>;

pub open spec fn pairs_view(v: Seq<(String, String)>) -> PairsModel {
    v.map_values(|p: (String, String)| (p.0@, p.1@))
}

pub open spec fn cookies_view(c: Option<Vec<(String, String)>>) -> Option<PairsModel> {
    match c {
        Some(v) => Some(pairs_view(v@)),
        None => None,
    }
}

pub open spec fn opt_string_view(o: Option<String>) -> Option<Seq<char>> {
    match o {
        Some(s) => Some(s@),
        None => None,
    }
}

/// The words of the request line.
pub open spec fn request_words(s: Seq<char>) -> Seq<Seq<char>> {
    if lines(s).len() > 0 {
        words(lines(s)[0])
    } else {
        Seq::<Seq<char>>::empty()
    }
}

/// The verbs that a request line may start with.
pub open spec fn is_method(w: Seq<char>) -> bool {
    w == "GET"@ || w == "POST"@ || w == "PUT"@ || w == "PATCH"@ || w == "DELETE"@ || w == "OPTIONS"@
        || w == "HEAD"@
}

/// A request line is well formed when it starts with a verb followed by a
/// path that starts with `/`.
pub open spec fn well_formed(ws: Seq<Seq<char>>) -> bool {
    ws.len() >= 2 && is_method(ws[0]) && ws[1].len() > 0 && ws[1][0] == '/'
}

/// The method of a well-formed request line, else `GET`.
pub open spec fn method_of(s: Seq<char>) -> Seq<char> {
    if well_formed(request_words(s)) {
        request_words(s)[0]
    } else {
        "GET"@
    }
}

/// The path of a well-formed request line, else `/`.
pub open spec fn path_of(s: Seq<char>) -> Seq<char> {
    if well_formed(request_words(s)) {
        request_words(s)[1]
    } else {
        "/"@
    }
}

/// Position of the first empty line, or the number of lines.
pub open spec fn blank_index(ls: Seq<Seq<char>>) -> nat
    decreases ls.len(),
{
    if ls.len() == 0 {
        0
    } else if ls[0].len() == 0 {
        0
    } else {
        1 + blank_index(ls.drop_first())
    }
}

/// The header lines: after the request line, up to the first empty line.
pub open spec fn header_lines(s: Seq<char>) -> Seq<Seq<char>> {
    let b = blank_index(lines(s));
    if b <= 1 {
        Seq::<Seq<char>>::empty()
    } else {
        lines(s).subrange(1, b as int)
    }
}

pub open spec fn starts_with(l: Seq<char>, pre: Seq<char>) -> bool {
    pre.len() <= l.len() && l.subrange(0, pre.len() as int) == pre
}

/// What follows `pre` on the last of `hs` that starts with it.
pub open spec fn last_with_prefix(hs: Seq<Seq<char>>, pre: Seq<char>) -> Option<Seq<char>>
    decreases hs.len(),
{
    if hs.len() == 0 {
        None
    } else if starts_with(hs.last(), pre) {
        Some(hs.last().subrange(pre.len() as int, hs.last().len() as int))
    } else {
        last_with_prefix(hs.drop_last(), pre)
    }
}

pub open spec fn authorization_of(s: Seq<char>) -> Option<Seq<char>> {
    last_with_prefix(header_lines(s), "authorization: "@)
}

/// A cookie segment, trimmed and split at its first `=`; none without one.
pub open spec fn cookie_pair(seg: Seq<char>) -> Option<(Seq<char>, Seq<char>)> {
    let t = trim(seg);
    let k = find_char(t, '=');
    if k < t.len() {
        Some((t.subrange(0, k as int), t.subrange((k + 1) as int, t.len() as int)))
    } else {
        None
    }
}

pub open spec fn cookie_pairs(segs: Seq<Seq<char>>) -> PairsModel
    decreases segs.len(),
{
    if segs.len() == 0 {
        Seq::empty()
    } else {
        let r = cookie_pairs(segs.drop_last());
        match cookie_pair(segs.last()) {
            Some(p) => r.push(p),
            None => r,
        }
    }
}

/// The cookies of the last `Cookie` header; none when it yields no pair.
pub open spec fn cookies_of(s: Seq<char>) -> Option<PairsModel> {
    match last_with_prefix(header_lines(s), "Cookie: "@) {
        None => None,
        Some(v) => {
            let cs = cookie_pairs(pieces(v, Sep::Semicolon));
            if cs.len() == 0 {
                None
            } else {
                Some(cs)
            }
        },
    }
}

pub open spec fn join_lines(ls: Seq<Seq<char>>) -> Seq<char>
    decreases ls.len(),
{
    if ls.len() == 0 {
        Seq::empty()
    } else if ls.len() == 1 {
        ls[0]
    } else {
        join_lines(ls.drop_last()) + seq!['\n'] + ls.last()
    }
}

/// The lines after the first empty line, joined with line feeds.
pub open spec fn body_of(s: Seq<char>) -> Seq<char> {
    let ls = lines(s);
    let b = blank_index(ls);
    if b + 1 < ls.len() {
        join_lines(ls.subrange((b + 1) as int, ls.len() as int))
    } else {
        Seq::empty()
    }
}

impl RawRequest {
    /// This request is what framing makes of the text `s`.
    pub open spec fn framed_from(&self, s: Seq<char>) -> bool {
        &&& self.method@ == method_of(s)
        &&& self.path@ == path_of(s)
        &&& opt_string_view(self.authorization) == authorization_of(s)
        &&& cookies_view(self.cookies) == cookies_of(s)
        &&& self.body@ == body_of(s)
    }
}

pub proof fn lemma_blank_index_bound(ls: Seq<Seq<char>>)
    ensures
        blank_index(ls) <= ls.len(),
        blank_index(ls) < ls.len() ==> ls[blank_index(ls) as int].len() == 0,
    decreases ls.len(),
{
    if ls.len() > 0 && ls[0].len() != 0 {
        lemma_blank_index_bound(ls.drop_first());
    }
}

/// The request text split into characters and lines.
struct Framed {
    chars: Vec<char>,
    lines: Vec<(usize, usize)>,
}

impl Framed {
    spec fn wf(&self, request: &str) -> bool {
        &&& self.chars@ == request@
        &&& ranges_within(self.lines@, 0, self.chars@.len() as int)
        &&& slices(self.chars@, self.lines@) == lines(request@)
    }

    fn new(request: &str) -> (r: Framed)
        ensures
            r.wf(request),
    {
        let chars = chars_of(request);
        let lines = line_ranges(&chars);
        Framed { chars, lines }
    }

    /// The text of `chars[a..b]`.
    fn text(&self, request: &str, a: usize, b: usize) -> (r: String)
        requires
            self.wf(request),
            a <= b <= self.chars@.len(),
        ensures
            r@ == self.chars@.subrange(a as int, b as int),
    {
        request.substring_char(a, b).to_owned()
    }

    fn blank_line(&self, Ghost(request): Ghost<&str>) -> (b: usize)
        requires
            self.wf(request),
        ensures
            b == blank_index(lines(request@)),
            b <= self.lines@.len(),
    {
        let ghost ls = lines(request@);
        let mut i: usize = 0;
        proof {
            assert(ls.subrange(0, ls.len() as int) =~= ls);
        }
        while i < self.lines.len() && self.lines[i].0 != self.lines[i].1
            invariant
                self.wf(request),
                i <= self.lines@.len(),
                ls == lines(request@),
                ls.len() == self.lines@.len(),
                blank_index(ls) == i + blank_index(ls.subrange(i as int, ls.len() as int)),
            decreases self.lines@.len() - i,
        {
            proof {
                assert(slices(self.chars@, self.lines@)[i as int] == slice_of(self.chars@, self.lines@[i as int]));
                assert(0 <= self.lines@[i as int].0 <= self.lines@[i as int].1 <= self.chars@.len());
                assert(ls[i as int].len() > 0);
                assert(ls.subrange(i as int, ls.len() as int)[0] == ls[i as int]);
                assert(ls.subrange(i as int, ls.len() as int).drop_first() =~= ls.subrange(
                    i + 1,
                    ls.len() as int,
                ));
            }
            i += 1;
        }
        proof {
            if i < self.lines@.len() {
                assert(slices(self.chars@, self.lines@)[i as int] == slice_of(self.chars@, self.lines@[i as int]));
                assert(ls[i as int] == slice_of(self.chars@, self.lines@[i as int]));
                assert(ls.subrange(i as int, ls.len() as int)[0] == ls[i as int]);
            }
        }
        i
    }

    /// The range of what follows `pre` on the last header line that starts with it.
    fn last_header(&self, Ghost(request): Ghost<&str>, pre: &Vec<char>) -> (r: Option<(usize, usize)>)
        requires
            self.wf(request),
        ensures
            match r {
                Some(v) => v.0 <= v.1 <= self.chars@.len() && last_with_prefix(
                    header_lines(request@),
                    pre@,
                ) == Some(slice_of(self.chars@, v)),
                None => last_with_prefix(header_lines(request@), pre@) is None,
            },
    {
        let b = self.blank_line(Ghost(request));
        let ghost ls = lines(request@);
        let ghost hl = header_lines(request@);
        let ghost top: int = if b <= 1 { 0 } else { b - 1 };
        proof {
            lemma_blank_index_bound(ls);
            assert(hl.len() == top);
            assert(hl.subrange(0, top) =~= hl);
        }
        let mut i: usize = b;
        while i > 1
            invariant
                self.wf(request),
                ls == lines(request@),
                hl == header_lines(request@),
                b == blank_index(ls),
                b <= ls.len() == self.lines@.len(),
                top == (if b <= 1 { 0 } else { b - 1 }),
                hl.len() == top,
                forall|t: int| 0 <= t < top ==> #[trigger] hl[t] == ls[t + 1],
                i <= b,
                b <= 1 ==> i == b,
                last_with_prefix(hl, pre@) == last_with_prefix(
                    hl.subrange(0, if i <= 1 { 0 } else { i - 1 }),
                    pre@,
                ),
            decreases i,
        {
            let (lo, hi) = self.lines[i - 1];
            let ghost sub = hl.subrange(0, i - 1);
            proof {
                assert(ls[i - 1] == slice_of(self.chars@, (lo, hi)));
                assert(sub.last() == hl[i - 2]);
                assert(sub.drop_last() =~= hl.subrange(0, i - 2));
            }
            if has_prefix(&self.chars, lo, hi, pre) {
                proof {
                    assert(ls[i - 1].subrange(0, pre@.len() as int) =~= self.chars@.subrange(
                        lo as int,
                        lo + pre@.len(),
                    ));
                    assert(ls[i - 1].subrange(pre@.len() as int, ls[i - 1].len() as int)
                        =~= self.chars@.subrange(lo + pre@.len(), hi as int));
                }
                return Some((lo + pre.len(), hi));
            }
            proof {
                if pre@.len() <= ls[i - 1].len() {
                    assert(ls[i - 1].subrange(0, pre@.len() as int) =~= self.chars@.subrange(
                        lo as int,
                        lo + pre@.len(),
                    ));
                }
            }
            i -= 1;
        }
        proof {
            assert(hl.subrange(0, 0) =~= Seq::<Seq<char>>::empty());
        }
        None
    }
}

fn is_method_exec(w: &str) -> (r: bool)
    ensures
        r == is_method(w@),
{
    text_eq(w, "GET") || text_eq(w, "POST") || text_eq(w, "PUT") || text_eq(w, "PATCH")
        || text_eq(w, "DELETE") || text_eq(w, "OPTIONS") || text_eq(w, "HEAD")
}

/// The method and path of a well-formed request line.
fn request_line(request: &str, f: &Framed) -> (r: Option<(String, String)>)
    requires
        f.wf(request),
    ensures
        match r {
            Some((m, p)) => well_formed(request_words(request@)) && m@ == request_words(request@)[0]
                && p@ == request_words(request@)[1],
            None => !well_formed(request_words(request@)),
        },
{
    if f.lines.len() == 0 {
        return None;
    }
    let (a, b) = f.lines[0];
    let ws = word_ranges(&f.chars, a, b);
    if ws.len() < 2 {
        return None;
    }
    proof {
        assert(slice_of(f.chars@, ws@[0]) == words(lines(request@)[0])[0]);
        assert(slice_of(f.chars@, ws@[1]) == words(lines(request@)[0])[1]);
        assert(a <= ws@[1].0 <= ws@[1].1 <= b);
    }
    let method = f.text(request, ws[0].0, ws[0].1);
    let path = f.text(request, ws[1].0, ws[1].1);
    if is_method_exec(method.as_str()) && ws[1].0 < ws[1].1 && f.chars[ws[1].0] == '/' {
        Some((method, path))
    } else {
        None
    }
}

/// The path of a well-formed request line, `/` otherwise.
fn extract_uri(request: &str, f: &Framed) -> (r: String)
    requires
        f.wf(request),
    ensures
        r@ == path_of(request@),
{
    match request_line(request, f) {
        Some((_, p)) => p,
        None => "/".to_owned(),
    }
}

/// The method of a well-formed request line, `GET` otherwise.
fn extract_method(request: &str, f: &Framed) -> (r: String)
    requires
        f.wf(request),
    ensures
        r@ == method_of(request@),
{
    match request_line(request, f) {
        Some((m, _)) => m,
        None => "GET".to_owned(),
    }
}

/// The value of the last `authorization` header.
fn extract_auth_header(request: &str, f: &Framed) -> (r: Option<String>)
    requires
        f.wf(request),
    ensures
        opt_string_view(r) == authorization_of(request@),
{
    let pre = chars_of("authorization: ");
    match f.last_header(Ghost(request), &pre) {
        Some((a, b)) => Some(f.text(request, a, b)),
        None => None,
    }
}

/// The cookie pairs of `chars[lo..hi]`, a `Cookie` header's value.
fn parse_cookies(request: &str, f: &Framed, lo: usize, hi: usize) -> (r: Vec<(String, String)>)
    requires
        f.wf(request),
        lo <= hi <= f.chars@.len(),
    ensures
        pairs_view(r@) == cookie_pairs(pieces(f.chars@.subrange(lo as int, hi as int), Sep::Semicolon)),
{
    let segs = split_ranges(&f.chars, lo, hi, Sep::Semicolon);
    let ghost all = slices(f.chars@, segs@);
    let mut out: Vec<(String, String)> = Vec::new();
    let mut k: usize = 0;
    proof {
        assert(all.subrange(0, 0) =~= Seq::<Seq<char>>::empty());
        assert(pairs_view(out@) =~= Seq::empty());
    }
    while k < segs.len()
        invariant
            f.wf(request),
            lo <= hi <= f.chars@.len(),
            k <= segs@.len(),
            all == slices(f.chars@, segs@),
            ranges_within(segs@, lo as int, hi as int),
            pairs_view(out@) == cookie_pairs(all.subrange(0, k as int)),
        decreases segs@.len() - k,
    {
        let ghost old_out = out@;
        let (a, b) = segs[k];
        proof {
            assert(all.subrange(0, k + 1).drop_last() =~= all.subrange(0, k as int));
            assert(all.subrange(0, k + 1).last() == slice_of(f.chars@, (a, b)));
            assert(lo <= segs@[k as int].0 <= segs@[k as int].1 <= hi);
        }
        let (ta, tb) = trim_range(&f.chars, a, b);
        let e = find_in(&f.chars, ta, tb, '=');
        let ghost t = f.chars@.subrange(ta as int, tb as int);
        if e < tb {
            let name = f.text(request, ta, e);
            let value = f.text(request, e + 1, tb);
            out.push((name, value));
            proof {
                assert(t.subrange(0, (e - ta) as int) =~= f.chars@.subrange(ta as int, e as int));
                assert(t.subrange(e - ta + 1, t.len() as int) =~= f.chars@.subrange(
                    e + 1,
                    tb as int,
                ));
                assert(pairs_view(out@) =~= pairs_view(old_out).push(
                    (name@, value@),
                ));
            }
        }
        k += 1;
    }
    proof {
        assert(all.subrange(0, segs@.len() as int) =~= all);
    }
    out
}

/// The pairs of the last `Cookie` header, none when it has no well-formed pair.
fn extract_cookies(request: &str, f: &Framed) -> (r: Option<Vec<(String, String)>>)
    requires
        f.wf(request),
    ensures
        cookies_view(r) == cookies_of(request@),
{
    let pre = chars_of("Cookie: ");
    match f.last_header(Ghost(request), &pre) {
        Some((a, b)) => {
            let cs = parse_cookies(request, f, a, b);
            if cs.len() == 0 {
                None
            } else {
                Some(cs)
            }
        },
        None => None,
    }
}

/// The lines after the first empty line, joined with line feeds.
fn extract_body(request: &str, f: &Framed) -> (r: String)
    requires
        f.wf(request),
    ensures
        r@ == body_of(request@),
{
    let b = f.blank_line(Ghost(request));
    let n = f.lines.len();
    if b >= n || b + 1 >= n {
        return String::new();
    }
    let ghost ls = lines(request@);
    let (a0, b0) = f.lines[b + 1];
    let mut out = f.text(request, a0, b0);
    let mut k: usize = b + 2;
    proof {
        assert(ls.subrange(b + 1, k as int) =~= seq![ls[b + 1]]);
        reveal_strlit("\n");
    }
    while k < n
        invariant
            f.wf(request),
            ls == lines(request@),
            n == f.lines@.len() == ls.len(),
            b + 2 <= k <= n,
            out@ == join_lines(ls.subrange(b + 1, k as int)),
            "\n"@ == seq!['\n'],
        decreases n - k,
    {
        let (lo, hi) = f.lines[k];
        out.append("\n");
        out.append(request.substring_char(lo, hi));
        proof {
            let s = ls.subrange(b + 1, k + 1);
            assert(s.drop_last() =~= ls.subrange(b + 1, k as int));
            assert(s.last() == slice_of(f.chars@, (lo, hi)));
        }
        k += 1;
    }
    out
}

/// Frames request text. Malformed input is never refused: missing parts take
/// their defaults (method `GET`, path `/`, no headers, empty body).
pub fn extract_request(request: &str) -> (r: RawRequest)
    ensures
        r.framed_from(request@),
{
    let f = Framed::new(request);
    RawRequest {
        path: extract_uri(request, &f),
        method: extract_method(request, &f),
        authorization: extract_auth_header(request, &f),
        body: extract_body(request, &f),
        cookies: extract_cookies(request, &f),
    }
}

} // verus!
