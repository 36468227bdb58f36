//! ASCII and path helpers over character sequences.

use vstd::prelude::*;

verus! {

/// ASCII lower-casing of one character (other characters are unchanged).
pub open spec fn lower_char(c: char) -> char {
    if 'A' <= c && c <= 'Z' {
        ((c as u32) + 32) as char
    } else {
        c
    }
}

/// ASCII lower-casing of a character sequence.
pub open spec fn lower_seq(s: Seq<char>) -> Seq<char> {
    Seq::new(s.len(), |i: int| lower_char(s[i]))
}

/// Two sequences are equal up to ASCII case.
pub open spec fn eq_ignore_case(a: Seq<char>, b: Seq<char>) -> bool {
    lower_seq(a) =~= lower_seq(b)
}

pub fn ascii_lower(c: char) -> (r: char)
    ensures
        r == lower_char(c),
{
    if 'A' <= c && c <= 'Z' {
        let b: u8 = c as u8;
        (b + 32) as char
    } else {
        c
    }
}

/// The characters of a string, in order.
pub fn chars_of(s: &str) -> (v: Vec<char>)
    ensures
        v@ == s@,
{
    let mut v: Vec<char> = Vec::new();
    for c in it: s.chars()
        invariant
            it.seq() == s@,
            v@ == it.seq().take(it.index() as int),
    {
        v.push(c);
    }
    v
}

} // verus!

verus! {

/// ASCII lower-casing of a string.
pub fn lower_chars(s: &str) -> (v: Vec<char>)
    ensures
        v@ == lower_seq(s@),
{
    let mut v: Vec<char> = Vec::new();
    for c in it: s.chars()
        invariant
            it.seq() == s@,
            v@ == lower_seq(it.seq().take(it.index() as int)),
    {
        let ghost before = it.seq().take(it.index() as int);
        v.push(ascii_lower(c));
        assert(it.seq().take(it.index() + 1) == before.push(c));
        assert(v@ =~= lower_seq(before.push(c)));
    }
    v
}

/// Whether the characters of `v` are exactly those of `lit`.
pub fn eq_lit(v: &Vec<char>, lit: &str) -> (r: bool)
    ensures
        r == (v@ == lit@),
{
    let ghost l = lit@;
    let mut i: usize = 0;
    let n = v.len();
    for c in it: lit.chars()
        invariant
            it.seq() == l,
            l == lit@,
            i == it.index(),
            n == v@.len(),
            i <= n,
            v@.take(i as int) == l.take(i as int),
    {
        assert(c == l[i as int]);
        assert(i < l.len());
        if i >= n || v[i] != c {
            assert(v@ != l) by {
                if v@ == l {
                    assert(v@.len() == l.len());
                    assert(v@[i as int] == l[i as int]);
                }
            }
            return false;
        }
        i = i + 1;
        assert(v@.take(i as int) =~= l.take(i as int));
    }
    assert(l.len() == i);
    if i != n {
        return false;
    }
    assert(v@ =~= v@.take(i as int));
    assert(l =~= l.take(i as int));
    true
}

/// `str::eq_ignore_ascii_case` on the character level.
pub fn str_eq_ignore_case(a: &str, b: &str) -> (r: bool)
    ensures
        r == eq_ignore_case(a@, b@),
{
    let la = lower_chars(a);
    let lb = lower_chars(b);
    let n = la.len();
    if n != lb.len() {
        assert(lower_seq(a@).len() != lower_seq(b@).len());
        return false;
    }
    let mut i: usize = 0;
    while i < n
        invariant
            n == la@.len(),
            n == lb@.len(),
            la@ == lower_seq(a@),
            lb@ == lower_seq(b@),
            i <= n,
            forall|j: int| 0 <= j < i ==> la@[j] == lb@[j],
        decreases n - i,
    {
        if la[i] != lb[i] {
            assert(lower_seq(a@)[i as int] != lower_seq(b@)[i as int]);
            return false;
        }
        i = i + 1;
    }
    assert(la@ =~= lb@);
    true
}

// ---------------------------------------------------------------------
// Paths

/// Drops trailing separators and trailing `/.` components.
pub open spec fn trim_end_seps(p: Seq<char>) -> Seq<char>
    decreases p.len(),
{
    if p.len() > 0 && p.last() == '/' {
        trim_end_seps(p.drop_last())
    } else if p.len() >= 2 && p.last() == '.' && p[p.len() - 2] == '/' {
        trim_end_seps(p.drop_last())
    } else {
        p
    }
}

/// The characters after the last separator.
pub open spec fn after_last_sep(q: Seq<char>) -> Seq<char>
    decreases q.len(),
{
    if q.len() == 0 {
        q
    } else if q.last() == '/' {
        Seq::empty()
    } else {
        after_last_sep(q.drop_last()).push(q.last())
    }
}

/// `Path::file_name`: the last normal component, if there is one.
pub open spec fn file_name(p: Seq<char>) -> Option<Seq<char>> {
    let c = after_last_sep(trim_end_seps(p));
    if c.len() == 0 || c == seq!['.'] || c == seq!['.', '.'] {
        None
    } else {
        Some(c)
    }
}

/// Index of the last `.`, or -1.
pub open spec fn last_dot(n: Seq<char>) -> int
    decreases n.len(),
{
    if n.len() == 0 {
        -1
    } else if n.last() == '.' {
        n.len() - 1
    } else {
        last_dot(n.drop_last())
    }
}

/// `Path::extension`: what follows the last `.` of the file name, unless
/// that dot begins the name or there is none.
pub open spec fn path_extension(p: Seq<char>) -> Option<Seq<char>> {
    match file_name(p) {
        None => None,
        Some(n) => {
            let k = last_dot(n);
            if k <= 0 {
                None
            } else {
                Some(n.skip(k + 1))
            }
        },
    }
}

proof fn lemma_trim_step(v: Seq<char>, e: int)
    requires
        0 < e <= v.len(),
        v[e - 1] == '/' || (e >= 2 && v[e - 1] == '.' && v[e - 2] == '/'),
    ensures
        trim_end_seps(v.take(e)) == trim_end_seps(v.take(e - 1)),
{
    assert(v.take(e).drop_last() =~= v.take(e - 1));
}

proof fn lemma_sep_step(v: Seq<char>, st: int, e: int)
    requires
        0 < st <= e <= v.len(),
        v[st - 1] != '/',
    ensures
        after_last_sep(v.take(st)) + v.subrange(st, e) == after_last_sep(v.take(st - 1))
            + v.subrange(st - 1, e),
{
    assert(v.take(st).drop_last() =~= v.take(st - 1));
    assert(after_last_sep(v.take(st)) == after_last_sep(v.take(st - 1)).push(v[st - 1]));
    assert(after_last_sep(v.take(st - 1)).push(v[st - 1]) + v.subrange(st, e)
        =~= after_last_sep(v.take(st - 1)) + v.subrange(st - 1, e));
}

proof fn lemma_dot_step(n: Seq<char>, k: int)
    requires
        0 < k <= n.len(),
        n[k - 1] != '.',
    ensures
        last_dot(n.take(k)) == last_dot(n.take(k - 1)),
{
    assert(n.take(k).drop_last() =~= n.take(k - 1));
}

/// End of the path once trailing separators and `/.` are dropped.
fn trimmed_end(v: &Vec<char>) -> (e: usize)
    ensures
        e <= v@.len(),
        trim_end_seps(v@) == v@.take(e as int),
{
    let ghost p = v@;
    let mut e: usize = v.len();
    assert(p.take(e as int) =~= p);
    while e > 0 && (v[e - 1] == '/' || (e >= 2 && v[e - 1] == '.' && v[e - 2] == '/'))
        invariant
            e <= v@.len(),
            p == v@,
            trim_end_seps(p) == trim_end_seps(p.take(e as int)),
        decreases e,
    {
        proof {
            lemma_trim_step(p, e as int);
        }
        e = e - 1;
    }
    e
}

/// Start of the last component of `v[..e]`.
fn component_start(v: &Vec<char>, e: usize) -> (st: usize)
    requires
        e <= v@.len(),
    ensures
        st <= e,
        after_last_sep(v@.take(e as int)) == v@.subrange(st as int, e as int),
{
    let ghost q = v@.take(e as int);
    let mut st: usize = e;
    assert(q.take(st as int) =~= q);
    assert(q.subrange(st as int, e as int) =~= Seq::<char>::empty());
    assert(after_last_sep(q) =~= after_last_sep(q.take(st as int)) + q.subrange(st as int, e as int));
    while st > 0 && v[st - 1] != '/'
        invariant
            st <= e <= v@.len(),
            q == v@.take(e as int),
            after_last_sep(q) == after_last_sep(q.take(st as int)) + q.subrange(st as int, e as int),
        decreases st,
    {
        proof {
            lemma_sep_step(q, st as int, e as int);
        }
        st = st - 1;
    }
    proof {
        if st > 0 {
            assert(q.take(st as int).last() == '/');
        }
        assert(after_last_sep(q.take(st as int)).len() == 0);
        assert(q.subrange(st as int, e as int) =~= v@.subrange(st as int, e as int));
    }
    st
}

/// One past the last `.` in `v[st..e]`, or `st` when there is none.
fn dot_end(v: &Vec<char>, st: usize, e: usize) -> (k: usize)
    requires
        st <= e <= v@.len(),
    ensures
        st <= k <= e,
        last_dot(v@.subrange(st as int, e as int)) == k - st - 1,
{
    let ghost name = v@.subrange(st as int, e as int);
    let mut k: usize = e;
    assert(name.take((k - st) as int) =~= name);
    while k > st && v[k - 1] != '.'
        invariant
            st <= k <= e <= v@.len(),
            name == v@.subrange(st as int, e as int),
            last_dot(name) == last_dot(name.take((k - st) as int)),
        decreases k,
    {
        proof {
            lemma_dot_step(name, (k - st) as int);
        }
        k = k - 1;
    }
    proof {
        if k > st {
            assert(name.take((k - st) as int).last() == '.');
        } else {
            assert(name.take(0) =~= Seq::<char>::empty());
        }
    }
    k
}

/// `v[from..to]` as a new vector.
pub fn sub_vec(v: &Vec<char>, from: usize, to: usize) -> (out: Vec<char>)
    requires
        from <= to <= v@.len(),
    ensures
        out@ == v@.subrange(from as int, to as int),
{
    let mut out: Vec<char> = Vec::new();
    let mut i: usize = from;
    while i < to
        invariant
            from <= i <= to <= v@.len(),
            out@ == v@.subrange(from as int, i as int),
        decreases to - i,
    {
        out.push(v[i]);
        i = i + 1;
        assert(out@ =~= v@.subrange(from as int, i as int));
    }
    out
}

/// The extension of a path, as `Path::extension` gives it.
pub fn extension_of(path: &str) -> (r: Option<Vec<char>>)
    ensures
        match r {
            Some(x) => path_extension(path@) == Some(x@),
            None => path_extension(path@) is None,
        },
{
    let v = chars_of(path);
    let ghost p = v@;
    let e = trimmed_end(&v);
    let st = component_start(&v, e);
    let ghost name = p.subrange(st as int, e as int);
    assert(file_name(p) == (if name.len() == 0 || name == seq!['.'] || name == seq!['.', '.'] {
        None
    } else {
        Some(name)
    }));
    let len = e - st;
    if len == 0 {
        return None;
    }
    if len == 1 && v[st] == '.' {
        assert(name =~= seq!['.']);
        return None;
    }
    if len == 2 && v[st] == '.' && v[st + 1] == '.' {
        assert(name =~= seq!['.', '.']);
        return None;
    }
    proof {
        if name == seq!['.'] {
            assert(name[0] == '.');
        }
        if name == seq!['.', '.'] {
            assert(name[0] == '.' && name[1] == '.');
        }
    }
    let k = dot_end(&v, st, e);
    if k <= st + 1 {
        return None;
    }
    let out = sub_vec(&v, k, e);
    assert(name.skip((k - st) as int) =~= out@);
    Some(out)
}

} // verus!

verus! {

/// ASCII lower-casing of a character vector.
pub fn lower_vec(v: &Vec<char>) -> (r: Vec<char>)
    ensures
        r@ == lower_seq(v@),
{
    let mut r: Vec<char> = Vec::new();
    let mut i: usize = 0;
    while i < v.len()
        invariant
            i <= v@.len(),
            r@ == lower_seq(v@.take(i as int)),
        decreases v@.len() - i,
    {
        r.push(ascii_lower(v[i]));
        i = i + 1;
        assert(r@ =~= lower_seq(v@.take(i as int)));
    }
    assert(v@.take(i as int) =~= v@);
    r
}

} // verus!

verus! {

/// `String::push`: appends one character.
#[verifier::external_body]
pub(crate) fn push_char(s: &mut String, c: char)
    ensures
        final(s)@ == old(s)@.push(c),
{
    s.push(c);
}

/// A new string holding the given characters.
pub fn string_of_chars(v: &Vec<char>) -> (s: String)
    ensures
        s@ == v@,
{
    let mut s = String::new();
    let mut i: usize = 0;
    while i < v.len()
        invariant
            i <= v@.len(),
            s@ == v@.take(i as int),
        decreases v@.len() - i,
    {
        push_char(&mut s, v[i]);
        i = i + 1;
        assert(s@ =~= v@.take(i as int));
    }
    assert(v@.take(i as int) =~= v@);
    s
}

/// `Path::join`: an absolute `rel` replaces the base; otherwise a separator
/// is inserted unless the base is empty or already ends with one.
pub open spec fn join_path(base: Seq<char>, rel: Seq<char>) -> Seq<char> {
    if rel.len() > 0 && rel[0] == '/' {
        rel
    } else if base.len() > 0 && base.last() != '/' {
        base + seq!['/'] + rel
    } else {
        base + rel
    }
}

pub fn join(base: &str, rel: &str) -> (r: String)
    ensures
        r@ == join_path(base@, rel@),
{
    let rc = chars_of(rel);
    if rc.len() > 0 && rc[0] == '/' {
        return String::from_str(rel);
    }
    let mut r = String::from_str(base);
    let b = chars_of(base);
    if b.len() > 0 && b[b.len() - 1] != '/' {
        push_char(&mut r, '/');
    }
    r.append(rel);
    r
}

} // verus!

verus! {

/// `char::is_whitespace`: the Unicode White_Space characters.
pub open spec fn is_ws(c: char) -> bool {
    ||| c == '\t' || c == '\n' || c == '\x0B' || c == '\x0C' || c == '\r' || c == ' '
    ||| c == '\u{85}' || c == '\u{A0}' || c == '\u{1680}'
    ||| ('\u{2000}' <= c && c <= '\u{200A}')
    ||| c == '\u{2028}' || c == '\u{2029}' || c == '\u{202F}' || c == '\u{205F}'
    ||| c == '\u{3000}'
}

pub fn is_whitespace(c: char) -> (r: bool)
    ensures
        r == is_ws(c),
{
    c == '\t' || c == '\n' || c == '\x0B' || c == '\x0C' || c == '\r' || c == ' ' || c == '\u{85}'
        || c == '\u{A0}' || c == '\u{1680}' || ('\u{2000}' <= c && c <= '\u{200A}') || c
        == '\u{2028}' || c == '\u{2029}' || c == '\u{202F}' || c == '\u{205F}' || c == '\u{3000}'
}

/// Leading whitespace removed.
pub open spec fn trim_start(s: Seq<char>) -> Seq<char>
    decreases s.len(),
{
    if s.len() > 0 && is_ws(s[0]) {
        trim_start(s.drop_first())
    } else {
        s
    }
}

/// Trailing whitespace removed.
pub open spec fn trim_end(s: Seq<char>) -> Seq<char>
    decreases s.len(),
{
    if s.len() > 0 && is_ws(s.last()) {
        trim_end(s.drop_last())
    } else {
        s
    }
}

/// `str::trim`.
pub open spec fn trim(s: Seq<char>) -> Seq<char> {
    trim_end(trim_start(s))
}

/// `v[from..to]` trimmed, as a range of `v`.
pub fn trim_range(v: &Vec<char>, from: usize, to: usize) -> (r: (usize, usize))
    requires
        from <= to <= v@.len(),
    ensures
        from <= r.0 <= r.1 <= to,
        v@.subrange(r.0 as int, r.1 as int) == trim(v@.subrange(from as int, to as int)),
{
    let ghost s = v@.subrange(from as int, to as int);
    let mut a = from;
    while a < to && is_whitespace(v[a])
        invariant
            from <= a <= to <= v@.len(),
            s == v@.subrange(from as int, to as int),
            trim_start(s) == trim_start(v@.subrange(a as int, to as int)),
        decreases to - a,
    {
        assert(v@.subrange(a as int, to as int).drop_first() =~= v@.subrange(a + 1, to as int));
        a = a + 1;
    }
    assert(trim_start(v@.subrange(a as int, to as int)) == v@.subrange(a as int, to as int));
    let mut b = to;
    assert(v@.subrange(a as int, b as int) =~= trim_start(s));
    while b > a && is_whitespace(v[b - 1])
        invariant
            from <= a <= b <= to <= v@.len(),
            trim(s) == trim_end(v@.subrange(a as int, b as int)),
        decreases b,
    {
        assert(v@.subrange(a as int, b as int).drop_last() =~= v@.subrange(a as int, b - 1));
        b = b - 1;
    }
    (a, b)
}

/// Whether `v[from..to]` is exactly `lit`.
pub fn range_eq_lit(v: &Vec<char>, from: usize, to: usize, lit: &str) -> (r: bool)
    requires
        from <= to <= v@.len(),
    ensures
        r == (v@.subrange(from as int, to as int) == lit@),
{
    let sub = sub_vec(v, from, to);
    eq_lit(&sub, lit)
}

/// Whether `v[from..]` starts with `lit`.
pub fn has_prefix_at(v: &Vec<char>, from: usize, to: usize, lit: &str) -> (r: bool)
    requires
        from <= to <= v@.len(),
    ensures
        r == (lit@.len() <= to - from && v@.subrange(from as int, from + lit@.len()) == lit@),
{
    let l = chars_of(lit);
    let n = l.len();
    if n > to - from {
        return false;
    }
    let sub = sub_vec(v, from, from + n);
    eq_lit(&sub, lit)
}

} // verus!

verus! {

/// Whether two character vectors are equal.
pub fn vec_eq(a: &Vec<char>, b: &Vec<char>) -> (r: bool)
    ensures
        r == (a@ == b@),
{
    if a.len() != b.len() {
        return false;
    }
    let mut i: usize = 0;
    while i < a.len()
        invariant
            i <= a@.len(),
            a@.len() == b@.len(),
            forall|j: int| 0 <= j < i ==> a@[j] == b@[j],
        decreases a@.len() - i,
    {
        if a[i] != b[i] {
            return false;
        }
        i = i + 1;
    }
    assert(a@ =~= b@);
    true
}

/// Whether `v` equals `lit` up to ASCII case.
pub fn eq_ignore_case_lit(v: &Vec<char>, lit: &str) -> (r: bool)
    ensures
        r == eq_ignore_case(v@, lit@),
{
    let a = lower_vec(v);
    let b = lower_chars(lit);
    vec_eq(&a, &b)
}

/// Index of the first `\n` at or after `p`, or -1.
pub open spec fn nl_from(s: Seq<char>, p: int) -> int
    decreases s.len() - p,
{
    if p < 0 || p >= s.len() {
        -1
    } else if s[p] == '\n' {
        p
    } else {
        nl_from(s, p + 1)
    }
}

pub proof fn lemma_nl_from(s: Seq<char>, p: int)
    requires
        0 <= p,
    ensures
        nl_from(s, p) == -1 || (p <= nl_from(s, p) < s.len() && s[nl_from(s, p)] == '\n'),
    decreases s.len() - p,
{
    if p < s.len() && s[p] != '\n' {
        lemma_nl_from(s, p + 1);
    }
}

/// A line without the `\r` of a `\r\n` ending.
pub open spec fn strip_cr(l: Seq<char>) -> Seq<char> {
    if l.len() > 0 && l.last() == '\r' {
        l.drop_last()
    } else {
        l
    }
}

/// `str::lines` of `s[p..]`: split at `\n`, a `\r` before it dropped, no
/// empty line after a final `\n`.
pub open spec fn lines_from(s: Seq<char>, p: int) -> Seq<Seq<char>>
    decreases s.len() - p,
{
    if p < 0 || p >= s.len() {
        Seq::empty()
    } else {
        let k = nl_from(s, p);
        if k < 0 {
            seq![s.subrange(p, s.len() as int)]
        } else {
            proof {
                lemma_nl_from(s, p);
            }
            seq![strip_cr(s.subrange(p, k))] + lines_from(s, k + 1)
        }
    }
}

/// End of the line starting at `p` (the index of its `\n`, or the end).
pub fn line_end(v: &Vec<char>, p: usize) -> (e: usize)
    requires
        p < v@.len(),
    ensures
        p <= e <= v@.len(),
        e < v@.len() ==> nl_from(v@, p as int) == e,
        e == v@.len() ==> nl_from(v@, p as int) == -1,
{
    let mut j = p;
    while j < v.len() && v[j] != '\n'
        invariant
            p <= j <= v@.len(),
            nl_from(v@, p as int) == nl_from(v@, j as int),
        decreases v@.len() - j,
    {
        j = j + 1;
    }
    j
}

} // verus!

verus! {

/// First index at or after `p` that is not whitespace (or the end).
pub open spec fn skip_ws(s: Seq<char>, p: int) -> int
    decreases s.len() - p,
{
    if p < 0 || p >= s.len() {
        if p < 0 { 0 } else { p }
    } else if is_ws(s[p]) {
        skip_ws(s, p + 1)
    } else {
        p
    }
}

/// First index at or after `p` that is whitespace (or the end).
pub open spec fn token_end(s: Seq<char>, p: int) -> int
    decreases s.len() - p,
{
    if p < 0 || p >= s.len() {
        if p < 0 { 0 } else { p }
    } else if !is_ws(s[p]) {
        token_end(s, p + 1)
    } else {
        p
    }
}

pub proof fn lemma_skip_token(s: Seq<char>, p: int)
    requires
        0 <= p,
    ensures
        p <= skip_ws(s, p),
        p <= s.len() ==> skip_ws(s, p) <= s.len(),
        skip_ws(s, p) < s.len() ==> !is_ws(s[skip_ws(s, p)]),
        p <= token_end(s, p),
        p <= s.len() ==> token_end(s, p) <= s.len(),
        p < s.len() && !is_ws(s[p]) ==> token_end(s, p) > p,
    decreases s.len() - p,
{
    if p < s.len() {
        lemma_skip_token(s, p + 1);
    }
}

/// `str::split_whitespace` of `s[p..]`.
pub open spec fn tokens_from(s: Seq<char>, p: int) -> Seq<Seq<char>>
    decreases s.len() - p,
{
    if p < 0 || p > s.len() {
        Seq::empty()
    } else {
        let a = skip_ws(s, p);
        if a >= s.len() {
            Seq::empty()
        } else {
            proof {
                lemma_skip_token(s, p);
                lemma_skip_token(s, a);
            }
            let b = token_end(s, a);
            seq![s.subrange(a, b)] + tokens_from(s, b)
        }
    }
}

pub fn skip_whitespace(v: &Vec<char>, p: usize) -> (a: usize)
    requires
        p <= v@.len(),
    ensures
        a == skip_ws(v@, p as int),
        p <= a <= v@.len(),
{
    let mut a = p;
    while a < v.len() && is_whitespace(v[a])
        invariant
            p <= a <= v@.len(),
            skip_ws(v@, p as int) == skip_ws(v@, a as int),
        decreases v@.len() - a,
    {
        a = a + 1;
    }
    a
}

pub fn end_of_token(v: &Vec<char>, p: usize) -> (b: usize)
    requires
        p <= v@.len(),
    ensures
        b == token_end(v@, p as int),
        p <= b <= v@.len(),
{
    let mut b = p;
    while b < v.len() && !is_whitespace(v[b])
        invariant
            p <= b <= v@.len(),
            token_end(v@, p as int) == token_end(v@, b as int),
        decreases v@.len() - b,
    {
        b = b + 1;
    }
    b
}

} // verus!

verus! {

/// A segment between separators as `Path::components` keeps it: empty
/// segments (repeated or trailing separators) and `.` segments are
/// normalized away.
pub open spec fn seg_kept(cur: Seq<char>) -> Seq<Seq<char>> {
    if cur.len() == 0 || cur == seq!['.'] {
        Seq::empty()
    } else {
        seq![cur]
    }
}

/// The kept segments of `s`, the current segment so far being `cur`.
pub open spec fn segs_from(s: Seq<char>, cur: Seq<char>) -> Seq<Seq<char>>
    decreases s.len(),
{
    if s.len() == 0 {
        seg_kept(cur)
    } else if s[0] == '/' {
        seg_kept(cur) + segs_from(s.drop_first(), Seq::empty())
    } else {
        segs_from(s.drop_first(), cur.push(s[0]))
    }
}

/// The leading component of a Unix path: the root (written `/`) for an
/// absolute path, `.` for a path whose first segment is `.`, else none.
pub open spec fn path_head(s: Seq<char>) -> Seq<Seq<char>> {
    if s.len() > 0 && s[0] == '/' {
        seq![seq!['/']]
    } else if s.len() > 0 && s[0] == '.' && (s.len() == 1 || s[1] == '/') {
        seq![seq!['.']]
    } else {
        Seq::empty()
    }
}

/// `Path::components` of a Unix path, each component as text; two paths
/// are equal as `Path`s exactly when these are equal.
pub open spec fn path_components(s: Seq<char>) -> Seq<Seq<char>> {
    path_head(s) + segs_from(s, Seq::empty())
}

pub open spec fn char_vecs_view(v: Seq<Vec<char>>) -> Seq<Seq<char>> {
    v.map_values(|x: Vec<char>| x@)
}

fn push_kept(out: &mut Vec<Vec<char>>, cur: Vec<char>)
    ensures
        char_vecs_view(final(out)@) == char_vecs_view(old(out)@) + seg_kept(cur@),
{
    if cur.len() == 0 || (cur.len() == 1 && cur[0] == '.') {
        assert(cur@.len() == 0 || cur@ =~= seq!['.']);
        assert(char_vecs_view(out@) + seg_kept(cur@) =~= char_vecs_view(out@));
    } else {
        assert(cur@ != seq!['.']) by {
            if cur@ == seq!['.'] {
                assert(cur@.len() == 1 && cur@[0] == '.');
            }
        }
        let ghost before = char_vecs_view(out@);
        out.push(cur);
        assert(char_vecs_view(out@) =~= before + seq![out@.last()@]);
    }
}

/// The components of a Unix path, as `Path::components` yields them.
pub fn path_components_of(s: &str) -> (r: Vec<Vec<char>>)
    ensures
        char_vecs_view(r@) == path_components(s@),
{
    let c = chars_of(s);
    let mut out: Vec<Vec<char>> = Vec::new();
    if c.len() > 0 && c[0] == '/' {
        let mut root: Vec<char> = Vec::new();
        root.push('/');
        out.push(root);
        assert(char_vecs_view(out@) =~= path_head(s@));
    } else if c.len() > 0 && c[0] == '.' && (c.len() == 1 || c[1] == '/') {
        let mut dot: Vec<char> = Vec::new();
        dot.push('.');
        out.push(dot);
        assert(char_vecs_view(out@) =~= path_head(s@));
    } else {
        assert(char_vecs_view(out@) =~= path_head(s@));
    }
    let mut cur: Vec<char> = Vec::new();
    let mut i: usize = 0;
    assert(c@.skip(0) =~= c@);
    while i < c.len()
        invariant
            i <= c@.len(),
            c@ == s@,
            char_vecs_view(out@) + segs_from(c@.skip(i as int), cur@) == path_components(s@),
        decreases c@.len() - i,
    {
        let ghost rest = c@.skip(i as int);
        assert(rest.len() > 0 && rest[0] == c@[i as int]);
        assert(rest.drop_first() =~= c@.skip(i + 1));
        if c[i] == '/' {
            let ghost before = char_vecs_view(out@);
            let ghost kept = seg_kept(cur@);
            push_kept(&mut out, cur);
            cur = Vec::new();
            assert(cur@ =~= Seq::<char>::empty());
            assert(before + (kept + segs_from(c@.skip(i + 1), Seq::empty())) =~= (before + kept) + segs_from(
                c@.skip(i + 1),
                Seq::empty(),
            ));
        } else {
            let ghost old_cur = cur@;
            cur.push(c[i]);
            assert(cur@ =~= old_cur.push(c@[i as int]));
        }
        i = i + 1;
    }
    assert(c@.skip(i as int) =~= Seq::<char>::empty());
    push_kept(&mut out, cur);
    out
}

/// Whether two Unix paths are equal as `Path`s, that is component by
/// component.
pub fn same_path(a: &str, b: &str) -> (r: bool)
    ensures
        r == (path_components(a@) == path_components(b@)),
{
    let ka = path_components_of(a);
    let kb = path_components_of(b);
    let ghost va = char_vecs_view(ka@);
    let ghost vb = char_vecs_view(kb@);
    if ka.len() != kb.len() {
        assert(va.len() != vb.len());
        return false;
    }
    let mut i: usize = 0;
    while i < ka.len()
        invariant
            i <= ka@.len(),
            ka@.len() == kb@.len(),
            va == char_vecs_view(ka@),
            vb == char_vecs_view(kb@),
            va == path_components(a@),
            vb == path_components(b@),
            forall|j: int| 0 <= j < i ==> va[j] == vb[j],
        decreases ka@.len() - i,
    {
        assert(va[i as int] == ka@[i as int]@ && vb[i as int] == kb@[i as int]@);
        if !vec_eq(&ka[i], &kb[i]) {
            assert(va[i as int] != vb[i as int]);
            return false;
        }
        i = i + 1;
    }
    assert(va =~= vb);
    true
}

} // verus!

verus! {

/// Strings in code point order (for UTF-8 text, the byte order that
/// `OsStr` comparison uses): a proper prefix comes first.
pub open spec fn chars_lt(a: Seq<char>, b: Seq<char>) -> bool
    decreases a.len(),
{
    if a.len() == 0 {
        b.len() > 0
    } else if b.len() == 0 {
        false
    } else if a[0] != b[0] {
        (a[0] as u32) < (b[0] as u32)
    } else {
        chars_lt(a.drop_first(), b.drop_first())
    }
}

/// The rank of a component in `std::path::Component`'s order: the root,
/// then `.`, then `..`, then normal components.
pub open spec fn comp_rank(c: Seq<char>) -> int {
    if c == seq!['/'] {
        1
    } else if c == seq!['.'] {
        2
    } else if c == seq!['.', '.'] {
        3
    } else {
        4
    }
}

/// The order of path components: by rank, and normal components by text.
pub open spec fn comp_lt(a: Seq<char>, b: Seq<char>) -> bool {
    comp_rank(a) < comp_rank(b) || (comp_rank(a) == 4 && comp_rank(b) == 4 && chars_lt(a, b))
}

/// Component sequences in lexicographic order.
pub open spec fn comps_lt(x: Seq<Seq<char>>, y: Seq<Seq<char>>) -> bool
    decreases x.len(),
{
    if x.len() == 0 {
        y.len() > 0
    } else if y.len() == 0 {
        false
    } else if x[0] != y[0] {
        comp_lt(x[0], y[0])
    } else {
        comps_lt(x.drop_first(), y.drop_first())
    }
}

/// `Path` order: component by component.
pub open spec fn path_lt(a: Seq<char>, b: Seq<char>) -> bool {
    comps_lt(path_components(a), path_components(b))
}

pub proof fn lemma_chars_lt_irreflexive(a: Seq<char>)
    ensures
        !chars_lt(a, a),
    decreases a.len(),
{
    if a.len() > 0 {
        lemma_chars_lt_irreflexive(a.drop_first());
    }
}

pub proof fn lemma_chars_lt_transitive(a: Seq<char>, b: Seq<char>, c: Seq<char>)
    requires
        chars_lt(a, b),
        chars_lt(b, c),
    ensures
        chars_lt(a, c),
    decreases a.len(),
{
    if a.len() > 0 && b.len() > 0 && c.len() > 0 && a[0] == b[0] && b[0] == c[0] {
        lemma_chars_lt_transitive(a.drop_first(), b.drop_first(), c.drop_first());
    }
}

proof fn lemma_comp_lt(a: Seq<char>, b: Seq<char>, c: Seq<char>)
    ensures
        !comp_lt(a, a),
        comp_lt(a, b) && comp_lt(b, c) ==> comp_lt(a, c),
{
    lemma_chars_lt_irreflexive(a);
    if comp_lt(a, b) && comp_lt(b, c) && comp_rank(a) == 4 && comp_rank(b) == 4 && comp_rank(c) == 4 {
        lemma_chars_lt_transitive(a, b, c);
    }
}

/// Path order is irreflexive.
pub proof fn lemma_comps_lt_irreflexive(x: Seq<Seq<char>>)
    ensures
        !comps_lt(x, x),
    decreases x.len(),
{
    if x.len() > 0 {
        lemma_comps_lt_irreflexive(x.drop_first());
    }
}

/// Path order is transitive.
pub proof fn lemma_comps_lt_transitive(x: Seq<Seq<char>>, y: Seq<Seq<char>>, z: Seq<Seq<char>>)
    requires
        comps_lt(x, y),
        comps_lt(y, z),
    ensures
        comps_lt(x, z),
    decreases x.len(),
{
    if x.len() > 0 && y.len() > 0 && z.len() > 0 {
        lemma_comp_lt(x[0], y[0], z[0]);
        lemma_comp_lt(y[0], x[0], x[0]);
        lemma_comp_lt(x[0], y[0], x[0]);
        if x[0] == y[0] && y[0] == z[0] {
            lemma_comps_lt_transitive(x.drop_first(), y.drop_first(), z.drop_first());
        }
    }
}

fn comp_rank_of(c: &Vec<char>) -> (r: u8)
    ensures
        r == comp_rank(c@),
{
    if c.len() == 1 && c[0] == '/' {
        assert(c@ =~= seq!['/']);
        1
    } else if c.len() == 1 && c[0] == '.' {
        assert(c@ =~= seq!['.']);
        assert(c@ != seq!['/']);
        2
    } else if c.len() == 2 && c[0] == '.' && c[1] == '.' {
        assert(c@ =~= seq!['.', '.']);
        3
    } else {
        assert(c@ != seq!['/']) by {
            if c@ == seq!['/'] {
                assert(c@.len() == 1 && c@[0] == '/');
            }
        }
        assert(c@ != seq!['.']) by {
            if c@ == seq!['.'] {
                assert(c@.len() == 1 && c@[0] == '.');
            }
        }
        assert(c@ != seq!['.', '.']) by {
            if c@ == seq!['.', '.'] {
                assert(c@.len() == 2 && c@[0] == '.' && c@[1] == '.');
            }
        }
        4
    }
}

fn chars_less(a: &Vec<char>, b: &Vec<char>) -> (r: bool)
    ensures
        r == chars_lt(a@, b@),
{
    let mut i: usize = 0;
    assert(a@.skip(0) =~= a@);
    assert(b@.skip(0) =~= b@);
    while i < a.len() && i < b.len()
        invariant
            i <= a@.len(),
            i <= b@.len(),
            chars_lt(a@, b@) == chars_lt(a@.skip(i as int), b@.skip(i as int)),
        decreases a@.len() - i,
    {
        let ghost sa = a@.skip(i as int);
        let ghost sb = b@.skip(i as int);
        assert(sa[0] == a@[i as int] && sb[0] == b@[i as int]);
        assert(sa.drop_first() =~= a@.skip(i + 1));
        assert(sb.drop_first() =~= b@.skip(i + 1));
        if a[i] != b[i] {
            return (a[i] as u32) < (b[i] as u32);
        }
        i = i + 1;
    }
    i == a.len() && i < b.len()
}

fn comp_less(a: &Vec<char>, b: &Vec<char>) -> (r: bool)
    ensures
        r == comp_lt(a@, b@),
{
    let ra = comp_rank_of(a);
    let rb = comp_rank_of(b);
    ra < rb || (ra == 4 && rb == 4 && chars_less(a, b))
}

/// Whether the path `a` orders before `b` as `Path`s do.
pub fn path_less(a: &str, b: &str) -> (r: bool)
    ensures
        r == path_lt(a@, b@),
{
    let x = path_components_of(a);
    let y = path_components_of(b);
    let ghost vx = char_vecs_view(x@);
    let ghost vy = char_vecs_view(y@);
    let mut i: usize = 0;
    assert(vx.skip(0) =~= vx);
    assert(vy.skip(0) =~= vy);
    while i < x.len() && i < y.len()
        invariant
            i <= x@.len(),
            i <= y@.len(),
            vx == char_vecs_view(x@),
            vy == char_vecs_view(y@),
            vx == path_components(a@),
            vy == path_components(b@),
            comps_lt(vx, vy) == comps_lt(vx.skip(i as int), vy.skip(i as int)),
        decreases x@.len() - i,
    {
        let ghost sx = vx.skip(i as int);
        let ghost sy = vy.skip(i as int);
        assert(sx[0] == x@[i as int]@ && sy[0] == y@[i as int]@);
        assert(sx.drop_first() =~= vx.skip(i + 1));
        assert(sy.drop_first() =~= vy.skip(i + 1));
        if !vec_eq(&x[i], &y[i]) {
            return comp_less(&x[i], &y[i]);
        }
        i = i + 1;
    }
    i == x.len() && i < y.len()
}

} // verus!
