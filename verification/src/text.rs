//! Character-level string helpers with exact specifications: trimming,
//! splitting, substring search and joining.

use vstd::prelude::*;

verus! {

/// `String::push`: appends one character.
#[verifier::external_body]
pub(crate) fn push_char(s: &mut String, c: char)
    ensures
        final(s)@ == old(s)@.push(c),
{
    s.push(c);
}

/// What `str::to_lowercase` returns for a string (Unicode lowercase mapping).
pub uninterp spec fn lowercase_of(s: Seq<char>) -> Seq<char>;

/// ASCII `A`-`Z` mapped to `a`-`z`; every other character kept.
pub open spec fn ascii_lower(c: char) -> char {
    if 'A' <= c && c <= 'Z' {
        ((c as u32) + 32) as char
    } else {
        c
    }
}

/// `str::to_lowercase`: the Unicode lowercase form of `s`.
/// The contract names the result and states the documented ASCII case only:
/// on an ASCII string it lowercases `A`-`Z` and keeps every other character.
/// The Unicode case tables for other characters are not restated.
#[verifier::external_body]
pub(crate) fn to_lowercase(s: &str) -> (r: String)
    ensures
        r@ == lowercase_of(s@),
        vstd::utf8::is_ascii_chars(s@) ==> r@ == s@.map_values(|c: char| ascii_lower(c)),
{
    s.to_lowercase()
}

/// The characters of `s`, in order.
pub fn chars_vec(s: &str) -> (r: Vec<char>)
    ensures
        r@ == s@,
{
    let mut r: Vec<char> = Vec::new();
    for c in it: s.chars()
        invariant
            it.seq() == s@,
            r@ == s@.take(it.index() as int),
    {
        r.push(c);
    }
    r
}

/// The string made of `v[from..to]`.
pub fn string_from_range(v: &Vec<char>, from: usize, to: usize) -> (r: String)
    requires
        from <= to <= v@.len(),
    ensures
        r@ == v@.subrange(from as int, to as int),
{
    let mut r = String::new();
    let mut i = from;
    while i < to
        invariant
            from <= i <= to <= v@.len(),
            r@ == v@.subrange(from as int, i as int),
        decreases to - i,
    {
        push_char(&mut r, v[i]);
        proof {
            assert(v@.subrange(from as int, i + 1) =~= v@.subrange(from as int, i as int).push(
                v@[i as int],
            ));
        }
        i = i + 1;
    }
    r
}

/// The string made of all of `v`.
pub fn string_from_chars(v: &Vec<char>) -> (r: String)
    ensures
        r@ == v@,
{
    let r = string_from_range(v, 0, v.len());
    proof {
        assert(v@.subrange(0, v@.len() as int) =~= v@);
    }
    r
}

/// `a` followed by `b`.
pub fn concat2(a: &str, b: &str) -> (r: String)
    ensures
        r@ == a@ + b@,
{
    let mut r = a.to_owned();
    r.append(b);
    r
}

/// `a`, `b` and `c` one after the other.
pub fn concat3(a: &str, b: &str, c: &str) -> (r: String)
    ensures
        r@ == a@ + b@ + c@,
{
    let mut r = a.to_owned();
    r.append(b);
    r.append(c);
    r
}

/// Unicode `White_Space`, the set that `char::is_whitespace` tests.
pub open spec fn is_ws(c: char) -> bool {
    ('\u{9}' <= c && c <= '\u{d}') || c == ' ' || c == '\u{85}' || c == '\u{a0}' || c
        == '\u{1680}' || ('\u{2000}' <= c && c <= '\u{200a}') || c == '\u{2028}' || c
        == '\u{2029}' || c == '\u{202f}' || c == '\u{205f}' || c == '\u{3000}'
}

/// `char::is_whitespace`.
pub fn is_whitespace(c: char) -> (r: bool)
    ensures
        r == is_ws(c),
{
    ('\u{9}' <= c && c <= '\u{d}') || c == ' ' || c == '\u{85}' || c == '\u{a0}' || c
        == '\u{1680}' || ('\u{2000}' <= c && c <= '\u{200a}') || c == '\u{2028}' || c
        == '\u{2029}' || c == '\u{202f}' || c == '\u{205f}' || c == '\u{3000}'
}

/// `s` without its leading whitespace.
pub open spec fn trim_start(s: Seq<char>) -> Seq<char>
    decreases s.len(),
{
    if s.len() > 0 && is_ws(s[0]) {
        trim_start(s.drop_first())
    } else {
        s
    }
}

/// `s` without its trailing whitespace.
pub open spec fn trim_end(s: Seq<char>) -> Seq<char>
    decreases s.len(),
{
    if s.len() > 0 && is_ws(s[s.len() - 1]) {
        trim_end(s.drop_last())
    } else {
        s
    }
}

/// `str::trim`: `s` without leading and trailing whitespace.
pub open spec fn trim(s: Seq<char>) -> Seq<char> {
    trim_end(trim_start(s))
}

/// Every character of `s` is whitespace.
pub open spec fn all_ws(s: Seq<char>) -> bool {
    forall|i: int| 0 <= i < s.len() ==> is_ws(#[trigger] s[i])
}

proof fn lemma_trim_start(s: Seq<char>, a: int)
    requires
        0 <= a <= s.len(),
        forall|j: int| 0 <= j < a ==> is_ws(#[trigger] s[j]),
        a < s.len() ==> !is_ws(s[a]),
    ensures
        trim_start(s) == s.subrange(a, s.len() as int),
    decreases a,
{
    if a == 0 {
        assert(s.subrange(0, s.len() as int) =~= s);
    } else {
        let t = s.drop_first();
        assert forall|j: int| 0 <= j < a - 1 implies is_ws(#[trigger] t[j]) by {
            assert(t[j] == s[j + 1]);
        }
        lemma_trim_start(t, a - 1);
        assert(t.subrange(a - 1, t.len() as int) =~= s.subrange(a, s.len() as int));
    }
}

proof fn lemma_trim_end(s: Seq<char>, b: int)
    requires
        0 <= b <= s.len(),
        forall|j: int| b <= j < s.len() ==> is_ws(#[trigger] s[j]),
        b > 0 ==> !is_ws(s[b - 1]),
    ensures
        trim_end(s) == s.subrange(0, b),
    decreases s.len() - b,
{
    if b == s.len() {
        assert(s.subrange(0, b) =~= s);
    } else {
        let t = s.drop_last();
        assert forall|j: int| b <= j < t.len() implies is_ws(#[trigger] t[j]) by {
            assert(t[j] == s[j]);
        }
        lemma_trim_end(t, b);
        assert(t.subrange(0, b) =~= s.subrange(0, b));
    }
}

proof fn lemma_trim_end_keeps_first(s: Seq<char>)
    requires
        s.len() > 0,
        !is_ws(s[0]),
    ensures
        trim_end(s).len() > 0,
    decreases s.len(),
{
    if is_ws(s[s.len() - 1]) {
        lemma_trim_end_keeps_first(s.drop_last());
    }
}

/// The trimmed form is empty exactly when every character is whitespace.
pub proof fn lemma_trim_empty(s: Seq<char>)
    ensures
        trim(s).len() == 0 <==> all_ws(s),
    decreases s.len(),
{
    if s.len() > 0 && is_ws(s[0]) {
        let t = s.drop_first();
        lemma_trim_empty(t);
        assert(trim(s) == trim(t));
        if all_ws(t) {
            assert forall|i: int| 0 <= i < s.len() implies is_ws(#[trigger] s[i]) by {
                if i > 0 {
                    assert(s[i] == t[i - 1]);
                }
            }
        }
        if all_ws(s) {
            assert forall|i: int| 0 <= i < t.len() implies is_ws(#[trigger] t[i]) by {
                assert(t[i] == s[i + 1]);
            }
        }
    } else {
        assert(trim_start(s) == s);
        if s.len() > 0 {
            lemma_trim_end_keeps_first(s);
            assert(!all_ws(s));
        } else {
            assert(trim_end(s) == s);
        }
    }
}

/// The bounds `[a, b)` of the trimmed part of `v`.
fn trim_bounds(v: &Vec<char>) -> (r: (usize, usize))
    ensures
        r.0 <= r.1 <= v@.len(),
        trim(v@) == v@.subrange(r.0 as int, r.1 as int),
{
    let n = v.len();
    let mut a: usize = 0;
    while a < n && is_whitespace(v[a])
        invariant
            a <= n == v@.len(),
            forall|j: int| 0 <= j < a ==> is_ws(#[trigger] v@[j]),
        decreases n - a,
    {
        a = a + 1;
    }
    let mut b: usize = n;
    while b > a && is_whitespace(v[b - 1])
        invariant
            a <= b <= n == v@.len(),
            forall|j: int| b <= j < n ==> is_ws(#[trigger] v@[j]),
        decreases b,
    {
        b = b - 1;
    }
    proof {
        lemma_trim_start(v@, a as int);
        let u = v@.subrange(a as int, n as int);
        assert forall|j: int| b - a <= j < u.len() implies is_ws(#[trigger] u[j]) by {
            assert(u[j] == v@[j + a]);
        }
        if b > a {
            assert(u[b - a - 1] == v@[b - 1]);
        }
        lemma_trim_end(u, b - a);
        assert(u.subrange(0, b - a) =~= v@.subrange(a as int, b as int));
    }
    (a, b)
}

/// `str::trim`.
pub fn trim_str(s: &str) -> (r: String)
    ensures
        r@ == trim(s@),
{
    let v = chars_vec(s);
    let (a, b) = trim_bounds(&v);
    string_from_range(&v, a, b)
}

/// `s.trim().is_empty()`: every character of `s` is whitespace.
pub fn is_blank(s: &str) -> (r: bool)
    ensures
        r == (trim(s@).len() == 0),
        r == all_ws(s@),
{
    let v = chars_vec(s);
    let (a, b) = trim_bounds(&v);
    proof {
        lemma_trim_empty(s@);
    }
    a == b
}

/// `needle` occurs in `hay` starting at position `i`.
pub open spec fn occurs_at(hay: Seq<char>, needle: Seq<char>, i: int) -> bool {
    0 <= i && i + needle.len() <= hay.len() && hay.subrange(i, i + needle.len()) == needle
}

/// `str::contains` with a string pattern.
pub open spec fn contains_seq(hay: Seq<char>, needle: Seq<char>) -> bool {
    exists|i: int| occurs_at(hay, needle, i)
}

fn matches_at(h: &Vec<char>, n: &Vec<char>, i: usize) -> (r: bool)
    requires
        i + n@.len() <= h@.len(),
    ensures
        r == occurs_at(h@, n@, i as int),
{
    let mut k: usize = 0;
    while k < n.len()
        invariant
            i + n@.len() <= h@.len(),
            h@.len() == h.len(),
            k <= n@.len(),
            forall|j: int| 0 <= j < k ==> h@[i + j] == n@[j],
        decreases n@.len() - k,
    {
        if h[i + k] != n[k] {
            proof {
                assert(h@.subrange(i as int, i + n@.len())[k as int] != n@[k as int]);
            }
            return false;
        }
        k = k + 1;
    }
    proof {
        assert(h@.subrange(i as int, i + n@.len()) =~= n@);
    }
    true
}

/// `hay.contains(needle)`.
pub fn contains(hay: &str, needle: &str) -> (r: bool)
    ensures
        r == contains_seq(hay@, needle@),
{
    let h = chars_vec(hay);
    let n = chars_vec(needle);
    if n.len() > h.len() {
        return false;
    }
    let last = h.len() - n.len();
    let mut i: usize = 0;
    loop
        invariant
            i <= last,
            last == h@.len() - n@.len(),
            n@.len() <= h@.len(),
            h@ == hay@,
            n@ == needle@,
            forall|j: int| 0 <= j < i ==> !occurs_at(hay@, needle@, j),
        decreases last + 1 - i,
    {
        if matches_at(&h, &n, i) {
            return true;
        }
        if i == last {
            proof {
                assert forall|j: int| !occurs_at(hay@, needle@, j) by {
                    if 0 <= j <= last {
                    }
                }
            }
            return false;
        }
        i = i + 1;
    }
}

/// Which characters separate the pieces of a split.
#[derive(Debug, Clone, Copy, PartialEq, Eq, Structural)]
pub enum Separators {
    /// A single character.
    Char(char),
    /// `,` and `;`, in their ASCII and full-width forms.
    TagMarks,
    /// `,`, `;` and whitespace.
    ListMarks,
}

/// `c` separates pieces under `k`.
pub open spec fn is_sep(k: Separators, c: char) -> bool {
    match k {
        Separators::Char(x) => c == x,
        Separators::TagMarks => c == ',' || c == ';' || c == '\u{ff0c}' || c == '\u{ff1b}',
        Separators::ListMarks => c == ',' || c == ';' || is_ws(c),
    }
}

fn is_separator(k: Separators, c: char) -> (r: bool)
    ensures
        r == is_sep(k, c),
{
    match k {
        Separators::Char(x) => c == x,
        Separators::TagMarks => c == ',' || c == ';' || c == '\u{ff0c}' || c == '\u{ff1b}',
        Separators::ListMarks => c == ',' || c == ';' || is_whitespace(c),
    }
}

/// `str::split` on the separators of `k`: the pieces between separators, empty
/// pieces included; always at least one piece.
pub open spec fn split_by(s: Seq<char>, k: Separators) -> Seq<Seq<char>>
    decreases s.len(),
{
    if s.len() == 0 {
        seq![Seq::empty()]
    } else {
        let rest = split_by(s.drop_last(), k);
        let c = s[s.len() - 1];
        if is_sep(k, c) {
            rest.push(Seq::empty())
        } else {
            rest.update(rest.len() - 1, rest[rest.len() - 1].push(c))
        }
    }
}

/// A split has at least one piece.
pub proof fn lemma_split_nonempty(s: Seq<char>, k: Separators)
    ensures
        split_by(s, k).len() >= 1,
    decreases s.len(),
{
    if s.len() > 0 {
        lemma_split_nonempty(s.drop_last(), k);
    }
}

/// The views of a vector of strings.
pub open spec fn views(v: Seq<String>) -> Seq<Seq<char>> {
    v.map_values(|x: String| x@)
}

/// `s.split(..)` on the separators of `k`, collected.
pub fn split_str(s: &str, k: Separators) -> (r: Vec<String>)
    ensures
        views(r@) == split_by(s@, k),
{
    let v = chars_vec(s);
    let mut pieces: Vec<String> = Vec::new();
    let mut cur = String::new();
    let mut i: usize = 0;
    proof {
        assert(v@.take(0) =~= Seq::<char>::empty());
        assert(views(pieces@).push(cur@) =~= split_by(v@.take(0), k));
    }
    while i < v.len()
        invariant
            i <= v@.len(),
            views(pieces@).push(cur@) == split_by(v@.take(i as int), k),
        decreases v@.len() - i,
    {
        let c = v[i];
        proof {
            assert(v@.take(i + 1).drop_last() =~= v@.take(i as int));
            lemma_split_nonempty(v@.take(i as int), k);
        }
        if is_separator(k, c) {
            let ghost before = pieces@;
            let done = cur;
            pieces.push(done);
            cur = String::new();
            proof {
                assert(views(pieces@) =~= views(before).push(done@));
                assert(views(pieces@).push(cur@) =~= split_by(v@.take(i + 1), k));
            }
        } else {
            let ghost before = cur@;
            push_char(&mut cur, c);
            proof {
                assert(views(pieces@).push(cur@) =~= views(pieces@).push(before).update(
                    views(pieces@).len() as int,
                    before.push(c),
                ));
            }
        }
        i = i + 1;
    }
    proof {
        assert(v@.take(v@.len() as int) =~= v@);
    }
    let ghost before = pieces@;
    pieces.push(cur);
    proof {
        assert(views(pieces@) =~= views(before).push(pieces@.last()@));
    }
    pieces
}

/// Every piece trimmed.
pub open spec fn trim_all(ps: Seq<Seq<char>>) -> Seq<Seq<char>> {
    ps.map_values(|p: Seq<char>| trim(p))
}

/// The trimmed pieces that are not empty, in their order.
pub open spec fn trimmed_nonempty(ps: Seq<Seq<char>>) -> Seq<Seq<char>>
    decreases ps.len(),
{
    if ps.len() == 0 {
        Seq::empty()
    } else {
        let r = trimmed_nonempty(ps.drop_last());
        let t = trim(ps[ps.len() - 1]);
        if t.len() > 0 {
            r.push(t)
        } else {
            r
        }
    }
}

/// Each string trimmed.
pub fn trim_each(ps: &Vec<String>) -> (r: Vec<String>)
    ensures
        views(r@) == trim_all(views(ps@)),
{
    let mut r: Vec<String> = Vec::new();
    let mut i: usize = 0;
    while i < ps.len()
        invariant
            i <= ps@.len(),
            views(r@) == trim_all(views(ps@.take(i as int))),
        decreases ps@.len() - i,
    {
        let t = trim_str(ps[i].as_str());
        let ghost before = r@;
        r.push(t);
        proof {
            assert(views(r@) =~= views(before).push(t@));
            assert(views(ps@.take(i + 1)) =~= views(ps@.take(i as int)).push(ps@[i as int]@));
            assert(trim_all(views(ps@.take(i + 1))) =~= trim_all(views(ps@.take(i as int))).push(
                trim(ps@[i as int]@),
            ));
        }
        i = i + 1;
    }
    proof {
        assert(ps@.take(ps@.len() as int) =~= ps@);
    }
    r
}

/// The trimmed strings that are not empty, in their order.
pub fn trim_nonempty(ps: &Vec<String>) -> (r: Vec<String>)
    ensures
        views(r@) == trimmed_nonempty(views(ps@)),
{
    let mut r: Vec<String> = Vec::new();
    let mut i: usize = 0;
    while i < ps.len()
        invariant
            i <= ps@.len(),
            views(r@) == trimmed_nonempty(views(ps@.take(i as int))),
        decreases ps@.len() - i,
    {
        let t = trim_str(ps[i].as_str());
        proof {
            assert(views(ps@.take(i + 1)) =~= views(ps@.take(i as int)).push(ps@[i as int]@));
            assert(views(ps@.take(i + 1)).drop_last() =~= views(ps@.take(i as int)));
        }
        if !t.as_str().is_empty() {
            let ghost before = r@;
            r.push(t);
            proof {
                assert(views(r@) =~= views(before).push(t@));
            }
        }
        i = i + 1;
    }
    proof {
        assert(ps@.take(ps@.len() as int) =~= ps@);
    }
    r
}

/// The pieces joined with `sep` between consecutive ones.
pub open spec fn join(ps: Seq<Seq<char>>, sep: Seq<char>) -> Seq<char>
    decreases ps.len(),
{
    if ps.len() == 0 {
        Seq::empty()
    } else if ps.len() == 1 {
        ps[0]
    } else {
        join(ps.drop_last(), sep) + sep + ps[ps.len() - 1]
    }
}

/// `slice::join` on strings.
pub fn join_str(ps: &Vec<String>, sep: &str) -> (r: String)
    ensures
        r@ == join(views(ps@), sep@),
{
    let mut r = String::new();
    let mut i: usize = 0;
    while i < ps.len()
        invariant
            i <= ps@.len(),
            r@ == join(views(ps@.take(i as int)), sep@),
        decreases ps@.len() - i,
    {
        proof {
            assert(views(ps@.take(i + 1)) =~= views(ps@.take(i as int)).push(ps@[i as int]@));
            assert(views(ps@.take(i + 1)).drop_last() =~= views(ps@.take(i as int)));
        }
        if i > 0 {
            r.append(sep);
        } else {
            proof {
                assert(r@ =~= Seq::<char>::empty());
            }
        }
        r.append(ps[i].as_str());
        i = i + 1;
    }
    proof {
        assert(ps@.take(ps@.len() as int) =~= ps@);
    }
    r
}

/// `p` without one trailing carriage return.
pub open spec fn strip_cr(p: Seq<char>) -> Seq<char> {
    if p.len() > 0 && p[p.len() - 1] == '\r' {
        p.drop_last()
    } else {
        p
    }
}

/// `str::lines`: pieces between line feeds; a carriage return right before
/// a line feed is dropped; a final empty piece after the last line feed is
/// not a line.
pub open spec fn lines(s: Seq<char>) -> Seq<Seq<char>> {
    let ps = split_by(s, Separators::Char('\n'));
    let body = ps.drop_last().map_values(|p: Seq<char>| strip_cr(p));
    if ps[ps.len() - 1].len() == 0 {
        body
    } else {
        body.push(ps[ps.len() - 1])
    }
}

/// `s.lines()`, collected.
pub fn lines_of(s: &str) -> (r: Vec<String>)
    ensures
        views(r@) == lines(s@),
{
    let ps = split_str(s, Separators::Char('\n'));
    proof {
        lemma_split_nonempty(s@, Separators::Char('\n'));
    }
    let n = ps.len();
    let mut r: Vec<String> = Vec::new();
    let mut i: usize = 0;
    while i + 1 < n
        invariant
            n == ps@.len() >= 1,
            i + 1 <= n,
            views(r@) == views(ps@).take(i as int).map_values(|p: Seq<char>| strip_cr(p)),
        decreases n - i,
    {
        let v = chars_vec(ps[i].as_str());
        let m = v.len();
        let piece = if m > 0 && v[m - 1] == '\r' {
            string_from_range(&v, 0, m - 1)
        } else {
            string_from_chars(&v)
        };
        proof {
            if m > 0 && v@[m - 1] == '\r' {
                assert(v@.subrange(0, m - 1) =~= v@.drop_last());
            }
        }
        let ghost before = r@;
        r.push(piece);
        proof {
            assert(views(r@) =~= views(before).push(piece@));
            assert(views(ps@).take(i + 1) =~= views(ps@).take(i as int).push(ps@[i as int]@));
            assert(views(ps@).take(i + 1).map_values(|p: Seq<char>| strip_cr(p)) =~= views(
                ps@,
            ).take(i as int).map_values(|p: Seq<char>| strip_cr(p)).push(strip_cr(ps@[i as int]@)));
        }
        i = i + 1;
    }
    proof {
        assert(views(ps@).take(i as int) =~= views(ps@).drop_last());
    }
    if !ps[n - 1].as_str().is_empty() {
        let last = ps[n - 1].clone();
        let ghost before = r@;
        r.push(last);
        proof {
            assert(views(r@) =~= views(before).push(last@));
        }
    }
    r
}

/// `s` with every `\r\n` (taken left to right) replaced by `\n`.
pub open spec fn replace_crlf(s: Seq<char>) -> Seq<char>
    decreases s.len(),
{
    if s.len() >= 2 && s[0] == '\r' && s[1] == '\n' {
        seq!['\n'] + replace_crlf(s.skip(2))
    } else if s.len() == 0 {
        s
    } else {
        seq![s[0]] + replace_crlf(s.skip(1))
    }
}

/// Replacing `\r\n` distributes over a concatenation that does not join a
/// `\r` to a `\n`.
pub proof fn lemma_replace_crlf_concat(x: Seq<char>, y: Seq<char>)
    requires
        !(x.len() > 0 && x.last() == '\r' && y.len() > 0 && y[0] == '\n'),
    ensures
        replace_crlf(x + y) == replace_crlf(x) + replace_crlf(y),
    decreases x.len(),
{
    let xy = x + y;
    if x.len() == 0 {
        assert(xy =~= y);
        assert(replace_crlf(x) + replace_crlf(y) =~= replace_crlf(y));
    } else if x.len() >= 2 && x[0] == '\r' && x[1] == '\n' {
        assert(xy[0] == '\r' && xy[1] == '\n');
        assert(xy.skip(2) =~= x.skip(2) + y);
        lemma_replace_crlf_concat(x.skip(2), y);
        assert(replace_crlf(xy) =~= replace_crlf(x) + replace_crlf(y));
    } else {
        assert(xy[0] == x[0]);
        assert(!(xy.len() >= 2 && xy[0] == '\r' && xy[1] == '\n')) by {
            if x.len() == 1 && xy.len() >= 2 {
                assert(xy[1] == y[0]);
                assert(x.last() == x[0]);
            } else if xy.len() >= 2 {
                assert(xy[1] == x[1]);
            }
        }
        assert(xy.skip(1) =~= x.skip(1) + y);
        lemma_replace_crlf_concat(x.skip(1), y);
        assert(replace_crlf(xy) =~= replace_crlf(x) + replace_crlf(y));
    }
}

/// Replacing `\r\n` in whitespace leaves whitespace.
pub proof fn lemma_replace_crlf_ws(x: Seq<char>)
    requires
        all_ws(x),
    ensures
        all_ws(replace_crlf(x)),
    decreases x.len(),
{
    if x.len() >= 2 && x[0] == '\r' && x[1] == '\n' {
        assert(all_ws(x.skip(2))) by {
            assert forall|i: int| 0 <= i < x.skip(2).len() implies is_ws(#[trigger] x.skip(2)[i]) by {
                assert(x.skip(2)[i] == x[i + 2]);
            }
        }
        lemma_replace_crlf_ws(x.skip(2));
        let r = replace_crlf(x);
        assert forall|i: int| 0 <= i < r.len() implies is_ws(#[trigger] r[i]) by {
            if i > 0 {
                assert(r[i] == replace_crlf(x.skip(2))[i - 1]);
            }
        }
    } else if x.len() > 0 {
        assert(all_ws(x.skip(1))) by {
            assert forall|i: int| 0 <= i < x.skip(1).len() implies is_ws(#[trigger] x.skip(1)[i]) by {
                assert(x.skip(1)[i] == x[i + 1]);
            }
        }
        lemma_replace_crlf_ws(x.skip(1));
        let r = replace_crlf(x);
        assert forall|i: int| 0 <= i < r.len() implies is_ws(#[trigger] r[i]) by {
            if i > 0 {
                assert(r[i] == replace_crlf(x.skip(1))[i - 1]);
            } else {
                assert(is_ws(x[0]));
            }
        }
    }
}

proof fn lemma_trim_start_ws(w: Seq<char>)
    requires
        all_ws(w),
    ensures
        trim_start(w).len() == 0,
    decreases w.len(),
{
    if w.len() > 0 {
        assert(is_ws(w[0]));
        assert(all_ws(w.drop_first())) by {
            assert forall|i: int| 0 <= i < w.drop_first().len() implies is_ws(#[trigger] w.drop_first()[i]) by {
                assert(w.drop_first()[i] == w[i + 1]);
            }
        }
        lemma_trim_start_ws(w.drop_first());
    }
}

proof fn lemma_trim_start_concat(a: Seq<char>, w: Seq<char>)
    ensures
        all_ws(a) ==> trim_start(a + w) == trim_start(w),
        !all_ws(a) ==> trim_start(a + w) == trim_start(a) + w,
    decreases a.len(),
{
    if a.len() == 0 {
        assert(a + w =~= w);
    } else if is_ws(a[0]) {
        let t = a.drop_first();
        assert((a + w).drop_first() =~= t + w);
        assert((a + w)[0] == a[0]);
        lemma_trim_start_concat(t, w);
        if all_ws(a) {
            assert forall|i: int| 0 <= i < t.len() implies is_ws(#[trigger] t[i]) by {
                assert(t[i] == a[i + 1]);
            }
        }
        if all_ws(t) {
            assert forall|i: int| 0 <= i < a.len() implies is_ws(#[trigger] a[i]) by {
                if i > 0 {
                    assert(a[i] == t[i - 1]);
                }
            }
        }
    } else {
        assert((a + w)[0] == a[0]);
    }
}

proof fn lemma_trim_end_append_ws(t: Seq<char>, w: Seq<char>)
    requires
        all_ws(w),
    ensures
        trim_end(t + w) == trim_end(t),
    decreases w.len(),
{
    if w.len() == 0 {
        assert(t + w =~= t);
    } else {
        assert((t + w).last() == w.last());
        assert(is_ws(w[w.len() - 1]));
        assert((t + w).drop_last() =~= t + w.drop_last());
        assert(all_ws(w.drop_last())) by {
            assert forall|i: int| 0 <= i < w.drop_last().len() implies is_ws(#[trigger] w.drop_last()[i]) by {
                assert(w.drop_last()[i] == w[i]);
            }
        }
        lemma_trim_end_append_ws(t, w.drop_last());
    }
}

/// Whitespace added after a string does not change its trimmed form.
pub proof fn lemma_trim_append_ws(a: Seq<char>, w: Seq<char>)
    requires
        all_ws(w),
    ensures
        trim(a + w) == trim(a),
{
    lemma_trim_start_concat(a, w);
    if all_ws(a) {
        lemma_trim_start_ws(w);
        lemma_trim_start_ws(a);
        assert(trim_start(a + w) =~= trim_start(a));
    } else {
        lemma_trim_end_append_ws(trim_start(a), w);
    }
}

/// Whitespace added before a string does not change its trimmed form.
pub proof fn lemma_trim_prepend_ws(w: Seq<char>, a: Seq<char>)
    requires
        all_ws(w),
    ensures
        trim(w + a) == trim(a),
{
    lemma_trim_start_concat(w, a);
}

/// `s.replace("\r\n", "\n")`.
pub fn replace_crlf_str(s: &str) -> (r: String)
    ensures
        r@ == replace_crlf(s@),
{
    let v = chars_vec(s);
    let n = v.len();
    let mut r = String::new();
    let mut i: usize = 0;
    proof {
        assert(v@.skip(0) =~= v@);
    }
    while i < n
        invariant
            i <= n == v@.len(),
            r@ + replace_crlf(v@.skip(i as int)) == replace_crlf(v@),
        decreases n - i,
    {
        if i + 1 < n && v[i] == '\r' && v[i + 1] == '\n' {
            push_char(&mut r, '\n');
            proof {
                let t = v@.skip(i as int);
                assert(t[0] == '\r' && t[1] == '\n');
                assert(t.skip(2) =~= v@.skip(i + 2));
                assert(r@ + replace_crlf(v@.skip(i + 2)) =~= r@.drop_last() + replace_crlf(t));
            }
            i = i + 2;
        } else {
            push_char(&mut r, v[i]);
            proof {
                let t = v@.skip(i as int);
                assert(t[0] == v@[i as int]);
                assert(t.skip(1) =~= v@.skip(i + 1));
                assert(r@ + replace_crlf(v@.skip(i + 1)) =~= r@.drop_last() + replace_crlf(t));
            }
            i = i + 1;
        }
    }
    proof {
        assert(v@.skip(n as int) =~= Seq::<char>::empty());
        assert(r@ + replace_crlf(v@.skip(n as int)) =~= r@);
    }
    r
}

/// The decimal digit character for `d < 10`.
pub open spec fn digit_char(d: nat) -> char {
    ((d + 48) as u32) as char
}

/// The decimal representation of `n`, without sign or leading zeros.
pub open spec fn decimal(n: nat) -> Seq<char>
    decreases n,
{
    if n < 10 {
        seq![digit_char(n)]
    } else {
        decimal(n / 10).push(digit_char(n % 10))
    }
}

fn digit(d: u64) -> (c: char)
    requires
        d < 10,
    ensures
        c == digit_char(d as nat),
{
    let b: u8 = (d as u8) + 48;
    b as char
}

/// `n.to_string()` for an unsigned integer.
pub fn u64_to_decimal(n: u64) -> (r: String)
    ensures
        r@ == decimal(n as nat),
    decreases n,
{
    if n < 10 {
        let mut r = String::new();
        push_char(&mut r, digit(n));
        proof {
            assert(r@ =~= seq![digit_char(n as nat)]);
        }
        r
    } else {
        let mut r = u64_to_decimal(n / 10);
        push_char(&mut r, digit(n % 10));
        r
    }
}

/// `s` holds the character `c`.
pub fn has_char(s: &str, c: char) -> (r: bool)
    ensures
        r == s@.contains(c),
{
    let v = chars_vec(s);
    let mut i: usize = 0;
    while i < v.len()
        invariant
            i <= v@.len(),
            v@ == s@,
            forall|j: int| 0 <= j < i ==> v@[j] != c,
        decreases v@.len() - i,
    {
        if v[i] == c {
            proof {
                assert(s@[i as int] == c);
            }
            return true;
        }
        i = i + 1;
    }
    false
}

/// The view of an optional string.
pub open spec fn opt_view(o: Option<String>) -> Option<Seq<char>> {
    match o {
        Some(s) => Some(s@),
        None => None,
    }
}

/// The view of an optional string slice.
pub open spec fn opt_str_view(o: Option<&str>) -> Option<Seq<char>> {
    match o {
        Some(s) => Some(s@),
        None => None,
    }
}

/// A copy of an optional string.
pub fn clone_opt(o: &Option<String>) -> (r: Option<String>)
    ensures
        r == *o,
        opt_view(r) == opt_view(*o),
{
    match o {
        Some(s) => Some(s.clone()),
        None => None,
    }
}

/// An owned copy of an optional string slice.
pub fn owned_opt(o: Option<&str>) -> (r: Option<String>)
    ensures
        opt_view(r) == opt_str_view(o),
{
    match o {
        Some(s) => Some(s.to_owned()),
        None => None,
    }
}

/// A copy of a vector of strings.
pub fn clone_all(v: &Vec<String>) -> (r: Vec<String>)
    ensures
        views(r@) == views(v@),
{
    let mut r: Vec<String> = Vec::new();
    let mut i: usize = 0;
    while i < v.len()
        invariant
            i <= v@.len(),
            views(r@) == views(v@.take(i as int)),
        decreases v@.len() - i,
    {
        let ghost before = r@;
        r.push(v[i].clone());
        proof {
            assert(views(r@) =~= views(before).push(v@[i as int]@));
            assert(views(v@.take(i + 1)) =~= views(v@.take(i as int)).push(v@[i as int]@));
        }
        i = i + 1;
    }
    proof {
        assert(v@.take(v@.len() as int) =~= v@);
    }
    r
}

/// Whether two strings are equal.
pub fn str_eq(a: &str, b: &str) -> (r: bool)
    ensures
        r == (a@ == b@),
{
    let x = a.to_owned();
    let y = b.to_owned();
    x == y
}

/// Trimming keeps a run of the string's characters, which starts and ends
/// with characters that are not whitespace.
pub proof fn lemma_trim_shape(s: Seq<char>)
    ensures
        exists|a: int, b: int| 0 <= a <= b <= s.len() && trim(s) == s.subrange(a, b),
        trim(s).len() > 0 ==> !is_ws(trim(s)[0]) && !is_ws(trim(s).last()),
{
    lemma_trim_start_suffix(s);
    let t = trim_start(s);
    let a = choose|a: int| 0 <= a <= s.len() && t == s.subrange(a, s.len() as int);
    lemma_trim_end_prefix(t);
    let b = choose|b: int| 0 <= b <= t.len() && trim_end(t) == t.subrange(0, b);
    assert(trim(s) =~= s.subrange(a, a + b));
    if trim(s).len() > 0 {
        assert(trim(s)[0] == t[0]);
        if is_ws(t[0]) {
            assert(t.len() > 0 && is_ws(t[0]));
            lemma_trim_start_stops(s);
        }
        lemma_trim_end_stops(t);
    }
}

proof fn lemma_trim_start_suffix(s: Seq<char>)
    ensures
        exists|a: int| 0 <= a <= s.len() && trim_start(s) == s.subrange(a, s.len() as int),
    decreases s.len(),
{
    if s.len() > 0 && is_ws(s[0]) {
        let t = s.drop_first();
        lemma_trim_start_suffix(t);
        let a = choose|a: int| 0 <= a <= t.len() && trim_start(t) == t.subrange(a, t.len() as int);
        assert(t.subrange(a, t.len() as int) =~= s.subrange(a + 1, s.len() as int));
    } else {
        assert(s.subrange(0, s.len() as int) =~= s);
    }
}

proof fn lemma_trim_start_stops(s: Seq<char>)
    ensures
        trim_start(s).len() > 0 ==> !is_ws(trim_start(s)[0]),
    decreases s.len(),
{
    if s.len() > 0 && is_ws(s[0]) {
        lemma_trim_start_stops(s.drop_first());
    }
}

proof fn lemma_trim_end_prefix(s: Seq<char>)
    ensures
        exists|b: int| 0 <= b <= s.len() && trim_end(s) == s.subrange(0, b),
    decreases s.len(),
{
    if s.len() > 0 && is_ws(s[s.len() - 1]) {
        let t = s.drop_last();
        lemma_trim_end_prefix(t);
        let b = choose|b: int| 0 <= b <= t.len() && trim_end(t) == t.subrange(0, b);
        assert(t.subrange(0, b) =~= s.subrange(0, b));
    } else {
        assert(s.subrange(0, s.len() as int) =~= s);
    }
}

proof fn lemma_trim_end_stops(s: Seq<char>)
    ensures
        trim_end(s).len() > 0 ==> !is_ws(trim_end(s).last()),
    decreases s.len(),
{
    if s.len() > 0 && is_ws(s[s.len() - 1]) {
        lemma_trim_end_stops(s.drop_last());
    }
}

/// No piece of a split holds a separator.
pub proof fn lemma_split_pieces(s: Seq<char>, k: Separators)
    ensures
        forall|i: int, j: int| 0 <= i < split_by(s, k).len() && 0 <= j < split_by(s, k)[i].len()
            ==> !is_sep(k, #[trigger] split_by(s, k)[i][j]),
    decreases s.len(),
{
    if s.len() > 0 {
        lemma_split_pieces(s.drop_last(), k);
        lemma_split_nonempty(s.drop_last(), k);
    }
}

/// Each kept piece is the trimmed form of one of the pieces, and not empty.
pub proof fn lemma_trimmed_nonempty(ps: Seq<Seq<char>>)
    ensures
        forall|i: int| 0 <= i < trimmed_nonempty(ps).len() ==> (#[trigger] trimmed_nonempty(ps)[i]).len() > 0
            && exists|m: int| 0 <= m < ps.len() && trimmed_nonempty(ps)[i] == trim(ps[m]),
    decreases ps.len(),
{
    if ps.len() > 0 {
        let d = ps.drop_last();
        lemma_trimmed_nonempty(d);
        let r = trimmed_nonempty(ps);
        assert forall|i: int| 0 <= i < r.len() implies (#[trigger] r[i]).len() > 0
            && exists|m: int| 0 <= m < ps.len() && r[i] == trim(ps[m]) by {
            if i < trimmed_nonempty(d).len() {
                let m = choose|m: int| 0 <= m < d.len() && trimmed_nonempty(d)[i] == trim(d[m]);
                assert(d[m] == ps[m]);
            } else {
                assert(r[i] == trim(ps[ps.len() - 1]));
            }
        }
    }
}

} // verus!
