//! Character-sequence utilities: the string operations the rest of the
//! library is written in, each with a specification over `Seq<char>`.

use vstd::prelude::*;
use vstd::std_specs::iter::IteratorSpec;

verus! {

// ── Whitespace ───────────────────────────────────────────────────────────────

/// The Unicode `White_Space` property, which is what `char::is_whitespace` tests.
pub open spec fn is_ws(c: char) -> bool {
    let n = c as u32;
    ||| 0x9 <= n <= 0xd
    ||| n == 0x20
    ||| n == 0x85
    ||| n == 0xa0
    ||| n == 0x1680
    ||| 0x2000 <= n <= 0x200a
    ||| n == 0x2028
    ||| n == 0x2029
    ||| n == 0x202f
    ||| n == 0x205f
    ||| n == 0x3000
}

pub fn is_whitespace(c: char) -> (b: bool)
    ensures
        b == is_ws(c),
{
    let n: u32 = c as u32;
    (0x9 <= n && n <= 0xd) || n == 0x20 || n == 0x85 || n == 0xa0 || n == 0x1680 || (0x2000 <= n
        && n <= 0x200a) || n == 0x2028 || n == 0x2029 || n == 0x202f || n == 0x205f || n == 0x3000
}

/// ASCII letters and digits.
pub open spec fn is_ascii_alnum(c: char) -> bool {
    ('a' <= c && c <= 'z') || ('A' <= c && c <= 'Z') || ('0' <= c && c <= '9')
}

pub fn is_ascii_alphanumeric(c: char) -> (b: bool)
    ensures
        b == is_ascii_alnum(c),
{
    ('a' <= c && c <= 'z') || ('A' <= c && c <= 'Z') || ('0' <= c && c <= '9')
}

// ── Conversions between `str`/`String` and character vectors ───────────────

/// Wraps `String::push`.
#[verifier::external_body]
fn push_char(s: &mut String, c: char)
    ensures
        final(s)@ == old(s)@.push(c),
{
    s.push(c);
}

/// The characters of `s`, in order.
pub fn chars_of(s: &str) -> (v: Vec<char>)
    ensures
        v@ == s@,
{
    broadcast use vstd::string::group_string_axioms;
    let mut v: Vec<char> = Vec::new();
    let mut it = s.chars();
    assert(it.remaining() == s@);
    loop
        invariant
            v@ + it.remaining() == s@,
            it.obeys_prophetic_iter_laws(),
            it.decrease() is Some,
        ensures
            v@ == s@,
        decreases it.decrease()->0,
    {
        let ghost before = it.remaining();
        match it.next() {
            Some(c) => {
                assert(before.len() > 0);
                assert(v@.push(c) + it.remaining() =~= v@ + before);
                v.push(c);
            },
            None => {
                assert(before.len() == 0);
                assert(v@ =~= s@);
                break ;
            },
        }
    }
    v
}

/// A `String` holding the characters of `v`.
pub fn string_of(v: &[char]) -> (s: String)
    ensures
        s@ == v@,
{
    let mut s = String::new();
    let n = v.len();
    for i in 0..n
        invariant
            n == v@.len(),
            s@ == v@.take(i as int),
    {
        push_char(&mut s, v[i]);
        assert(v@.take(i + 1) == v@.take(i as int).push(v@[i as int]));
    }
    assert(v@.take(n as int) == v@);
    s
}

/// A copy of `s[a..b]`.
pub fn slice_of(s: &[char], a: usize, b: usize) -> (r: Vec<char>)
    requires
        a <= b <= s@.len(),
    ensures
        r@ == s@.subrange(a as int, b as int),
{
    let mut r: Vec<char> = Vec::new();
    let mut i = a;
    while i < b
        invariant
            a <= i <= b <= s@.len(),
            r@ == s@.subrange(a as int, i as int),
        decreases b - i,
    {
        r.push(s[i]);
        i += 1;
        assert(r@ == s@.subrange(a as int, i as int));
    }
    r
}

/// `a` followed by `b`.
pub fn concat(a: &[char], b: &[char]) -> (r: Vec<char>)
    ensures
        r@ == a@ + b@,
{
    let mut r = slice_of(a, 0, a.len());
    let n = b.len();
    for i in 0..n
        invariant
            n == b@.len(),
            r@ == a@ + b@.take(i as int),
    {
        r.push(b[i]);
        assert(b@.take(i + 1) == b@.take(i as int).push(b@[i as int]));
    }
    assert(b@.take(n as int) == b@);
    assert(a@.subrange(0, a@.len() as int) == a@);
    r
}

/// Appends `b` to `out`.
pub fn append(out: &mut Vec<char>, b: &[char])
    ensures
        final(out)@ == old(out)@ + b@,
{
    let n = b.len();
    let ghost start = out@;
    for i in 0..n
        invariant
            n == b@.len(),
            out@ == start + b@.take(i as int),
    {
        out.push(b[i]);
        assert(b@.take(i + 1) == b@.take(i as int).push(b@[i as int]));
    }
    assert(b@.take(n as int) == b@);
}

/// Appends the characters of `b` to `out`.
pub fn append_str(out: &mut Vec<char>, b: &str)
    ensures
        final(out)@ == old(out)@ + b@,
{
    let v = chars_of(b);
    append(out, v.as_slice());
}

// ── Equality and prefixes ────────────────────────────────────────────────────

pub fn seq_eq(a: &[char], b: &[char]) -> (r: bool)
    ensures
        r == (a@ == b@),
{
    if a.len() != b.len() {
        return false;
    }
    let n = a.len();
    for i in 0..n
        invariant
            n == a@.len() == b@.len(),
            forall|j: int| 0 <= j < i ==> a@[j] == b@[j],
    {
        if a[i] != b[i] {
            return false;
        }
    }
    assert(a@ =~= b@);
    true
}

/// Whether the characters of `a` spell `b`.
pub fn eq_str(a: &[char], b: &str) -> (r: bool)
    ensures
        r == (a@ == b@),
{
    let bv = chars_of(b);
    seq_eq(a, bv.as_slice())
}

pub open spec fn starts_with(s: Seq<char>, p: Seq<char>) -> bool {
    p.len() <= s.len() && s.take(p.len() as int) == p
}

pub open spec fn ends_with(s: Seq<char>, p: Seq<char>) -> bool {
    p.len() <= s.len() && s.skip(s.len() - p.len()) == p
}

/// Whether `p` occurs in `s` at position `i`.
pub open spec fn occurs_at(s: Seq<char>, p: Seq<char>, i: int) -> bool {
    0 <= i && i + p.len() <= s.len() && s.subrange(i, i + p.len()) == p
}

pub fn is_at(s: &[char], p: &[char], i: usize) -> (r: bool)
    ensures
        r == occurs_at(s@, p@, i as int),
{
    let sl = s.len();
    if i > sl || p.len() > sl - i {
        return false;
    }
    let n = p.len();
    for j in 0..n
        invariant
            n == p@.len(),
            sl == s@.len(),
            i + n <= s@.len(),
            forall|k: int| 0 <= k < j ==> s@[i + k] == p@[k],
    {
        assert(i + j < s@.len());
        if s[i + j] != p[j] {
            assert(s@.subrange(i as int, i + n)[j as int] != p@[j as int]);
            return false;
        }
    }
    assert(s@.subrange(i as int, i + n) =~= p@);
    true
}

pub fn starts_with_str(s: &[char], p: &str) -> (r: bool)
    ensures
        r == starts_with(s@, p@),
{
    let pv = chars_of(p);
    let r = is_at(s, pv.as_slice(), 0);
    assert(s@.subrange(0, pv@.len() as int) == s@.take(pv@.len() as int));
    r
}

pub fn ends_with_str(s: &[char], p: &str) -> (r: bool)
    ensures
        r == ends_with(s@, p@),
{
    let pv = chars_of(p);
    if pv.len() > s.len() {
        return false;
    }
    let r = is_at(s, pv.as_slice(), s.len() - pv.len());
    assert(s@.subrange(s@.len() - pv@.len(), s@.len() as int) == s@.skip(s@.len() - pv@.len()));
    r
}

// ── Search ───────────────────────────────────────────────────────────────────

/// The first position at or after `i` where `p` occurs in `s`.
pub open spec fn find_from(s: Seq<char>, p: Seq<char>, i: int) -> Option<int>
    decreases s.len() + 1 - i,
{
    if i < 0 || i + p.len() > s.len() {
        None
    } else if occurs_at(s, p, i) {
        Some(i)
    } else {
        find_from(s, p, i + 1)
    }
}

/// The first position where `p` occurs in `s` (what `str::find` returns).
pub open spec fn find(s: Seq<char>, p: Seq<char>) -> Option<int> {
    find_from(s, p, 0)
}

pub proof fn lemma_find_from_bounds(s: Seq<char>, p: Seq<char>, i: int)
    requires
        0 <= i,
    ensures
        find_from(s, p, i) matches Some(k) ==> i <= k && occurs_at(s, p, k) && (forall|j: int|
            i <= j < k ==> !occurs_at(s, p, j)),
        find_from(s, p, i) is None ==> forall|j: int| i <= j ==> !occurs_at(s, p, j),
    decreases s.len() + 1 - i,
{
    if i + p.len() > s.len() {
    } else if occurs_at(s, p, i) {
    } else {
        lemma_find_from_bounds(s, p, i + 1);
    }
}

pub fn find_at(s: &[char], p: &[char], start: usize) -> (r: Option<usize>)
    requires
        start <= s@.len(),
    ensures
        r matches Some(k) ==> find_from(s@, p@, start as int) == Some(k as int),
        r is None ==> find_from(s@, p@, start as int) is None,
{
    if p.len() > s.len() {
        return None;
    }
    let last = s.len() - p.len();
    let mut i = start;
    while i <= last
        invariant
            start <= i,
            last == s@.len() - p@.len(),
            find_from(s@, p@, start as int) == find_from(s@, p@, i as int),
        decreases last + 1 - i,
    {
        if is_at(s, p, i) {
            return Some(i);
        }
        if i == last {
            assert(find_from(s@, p@, i + 1) is None);
            return None;
        }
        i += 1;
    }
    None
}

pub fn find_seq(s: &[char], p: &[char]) -> (r: Option<usize>)
    ensures
        r matches Some(k) ==> find(s@, p@) == Some(k as int),
        r is None ==> find(s@, p@) is None,
{
    find_at(s, p, 0)
}

pub fn find_str(s: &[char], p: &str) -> (r: Option<usize>)
    ensures
        r matches Some(k) ==> find(s@, p@) == Some(k as int),
        r is None ==> find(s@, p@) is None,
{
    let pv = chars_of(p);
    find_at(s, pv.as_slice(), 0)
}

pub fn contains_str(s: &[char], p: &str) -> (r: bool)
    ensures
        r == (find(s@, p@) is Some),
{
    find_str(s, p).is_some()
}

/// The first position of the character `c` in `s`.
pub open spec fn index_of(s: Seq<char>, c: char) -> Option<int> {
    find(s, seq![c])
}

pub fn find_char(s: &[char], c: char) -> (r: Option<usize>)
    ensures
        r matches Some(k) ==> index_of(s@, c) == Some(k as int),
        r is None ==> index_of(s@, c) is None,
{
    let pv = vec![c];
    assert(pv@ == seq![c]);
    find_at(s, pv.as_slice(), 0)
}

pub proof fn lemma_find_bounds(s: Seq<char>, p: Seq<char>)
    ensures
        find(s, p) matches Some(k) ==> 0 <= k && k + p.len() <= s.len() && occurs_at(s, p, k)
            && (forall|j: int| 0 <= j < k ==> !occurs_at(s, p, j)),
        find(s, p) is None ==> forall|j: int| 0 <= j ==> !occurs_at(s, p, j),
{
    lemma_find_from_bounds(s, p, 0);
}

/// `s[a..]` as a slice.
pub fn tail_of(s: &[char], a: usize) -> (r: &[char])
    requires
        a <= s@.len(),
    ensures
        r@ == s@.skip(a as int),
{
    let r = &s[a..s.len()];
    assert(r@ =~= s@.skip(a as int));
    r
}

// ── Trimming ─────────────────────────────────────────────────────────────────

pub open spec fn trim_start(s: Seq<char>) -> Seq<char>
    decreases s.len(),
{
    if s.len() > 0 && is_ws(s[0]) {
        trim_start(s.drop_first())
    } else {
        s
    }
}

pub open spec fn trim_end(s: Seq<char>) -> Seq<char>
    decreases s.len(),
{
    if s.len() > 0 && is_ws(s.last()) {
        trim_end(s.drop_last())
    } else {
        s
    }
}

/// What `str::trim` keeps: whitespace removed from both ends.
pub open spec fn trim(s: Seq<char>) -> Seq<char> {
    trim_end(trim_start(s))
}

/// `t` occurs in `s` as a run of consecutive characters.
pub open spec fn contains_text(s: Seq<char>, t: Seq<char>) -> bool {
    exists|i: int| 0 <= i && i + t.len() <= s.len() && #[trigger] s.subrange(i, i + t.len()) == t
}

pub proof fn lemma_contains_middle(p: Seq<char>, m: Seq<char>, q: Seq<char>)
    ensures
        contains_text(p + m + q, m),
{
    assert((p + m + q).subrange(p.len() as int, (p.len() + m.len()) as int) =~= m);
}

pub proof fn lemma_contains_refl(a: Seq<char>)
    ensures
        contains_text(a, a),
{
    assert(a.subrange(0, 0int + a.len()) =~= a);
}

pub proof fn lemma_contains_left(a: Seq<char>, b: Seq<char>)
    ensures
        contains_text(a + b, a),
{
    assert((a + b).subrange(0, 0int + a.len()) =~= a);
}

pub proof fn lemma_contains_right(a: Seq<char>, b: Seq<char>)
    ensures
        contains_text(a + b, b),
{
    assert((a + b).subrange(a.len() as int, (a.len() + b.len()) as int) =~= b);
}

pub proof fn lemma_contains_trans(s: Seq<char>, m: Seq<char>, t: Seq<char>)
    requires
        contains_text(s, m),
        contains_text(m, t),
    ensures
        contains_text(s, t),
{
    let i = choose|i: int| 0 <= i && i + m.len() <= s.len() && #[trigger] s.subrange(i, i + m.len()) == m;
    let j = choose|j: int| 0 <= j && j + t.len() <= m.len() && #[trigger] m.subrange(j, j + t.len()) == t;
    assert(s.subrange(i + j, i + j + t.len()) =~= m.subrange(j, j + t.len()));
}

/// Trimming text whose middle part starts with a visible character and
/// whose last part ends with one removes only leading whitespace of the
/// first part.
pub proof fn lemma_trim_around(p: Seq<char>, t: Seq<char>, q: Seq<char>)
    requires
        t.len() > 0,
        !is_ws(t[0]),
        q.len() > 0,
        !is_ws(q.last()),
    ensures
        trim(p + t + q) == trim_start(p) + t + q,
    decreases p.len(),
{
    let s = p + t + q;
    if p.len() == 0 {
        assert(s =~= t + q);
        assert(s[0] == t[0]);
        assert(trim_start(p) == p);
    } else if is_ws(p[0]) {
        lemma_trim_around(p.drop_first(), t, q);
        assert(s.drop_first() =~= p.drop_first() + t + q);
    } else {
        assert(s[0] == p[0]);
    }
    let u = trim_start(p) + t + q;
    assert(u.last() == q.last());
}

pub proof fn lemma_trim_start_skip(s: Seq<char>, i: int)
    requires
        0 <= i <= s.len(),
        forall|j: int| 0 <= j < i ==> is_ws(s[j]),
    ensures
        trim_start(s) == trim_start(s.skip(i)),
    decreases i,
{
    if i == 0 {
        assert(s.skip(0) == s);
    } else {
        assert(s.drop_first().skip(i - 1) == s.skip(i));
        lemma_trim_start_skip(s.drop_first(), i - 1);
    }
}

pub proof fn lemma_trim_end_take(s: Seq<char>, i: int)
    requires
        0 <= i <= s.len(),
        forall|j: int| i <= j < s.len() ==> is_ws(s[j]),
    ensures
        trim_end(s) == trim_end(s.take(i)),
    decreases s.len() - i,
{
    if i == s.len() {
        assert(s.take(i) == s);
    } else {
        assert(s.drop_last().take(i) == s.take(i));
        lemma_trim_end_take(s.drop_last(), i);
    }
}

pub proof fn lemma_trim_start_len(s: Seq<char>)
    ensures
        trim_start(s).len() <= s.len(),
        trim_start(s).len() > 0 ==> !is_ws(trim_start(s)[0]),
        trim_start(s) == s.skip(s.len() - trim_start(s).len()),
    decreases s.len(),
{
    if s.len() > 0 && is_ws(s[0]) {
        lemma_trim_start_len(s.drop_first());
        assert(s.drop_first().skip(s.drop_first().len() - trim_start(s).len()) == s.skip(
            s.len() - trim_start(s).len(),
        ));
    } else {
        assert(s.skip(0) == s);
    }
}

/// `s` without leading whitespace.
pub fn trim_start_of(s: &[char]) -> (r: Vec<char>)
    ensures
        r@ == trim_start(s@),
{
    let n = s.len();
    let mut i: usize = 0;
    while i < n && is_whitespace(s[i])
        invariant
            i <= n == s@.len(),
            forall|j: int| 0 <= j < i ==> is_ws(s@[j]),
        decreases n - i,
    {
        i += 1;
    }
    proof {
        lemma_trim_start_skip(s@, i as int);
    }
    slice_of(s, i, n)
}

/// `s` without trailing whitespace.
pub fn trim_end_of(s: &[char]) -> (r: Vec<char>)
    ensures
        r@ == trim_end(s@),
{
    let n = s.len();
    let mut i: usize = n;
    while i > 0 && is_whitespace(s[i - 1])
        invariant
            i <= n == s@.len(),
            forall|j: int| i <= j < n ==> is_ws(s@[j]),
        decreases i,
    {
        i -= 1;
    }
    proof {
        lemma_trim_end_take(s@, i as int);
        assert(s@.subrange(0, i as int) == s@.take(i as int));
    }
    slice_of(s, 0, i)
}

/// `s` without leading and trailing whitespace.
pub fn trim_of(s: &[char]) -> (r: Vec<char>)
    ensures
        r@ == trim(s@),
{
    let a = trim_start_of(s);
    trim_end_of(a.as_slice())
}

pub fn trim_str(s: &str) -> (r: Vec<char>)
    ensures
        r@ == trim(s@),
{
    let v = chars_of(s);
    trim_of(v.as_slice())
}

// ── Splitting ────────────────────────────────────────────────────────────────

pub open spec fn views(v: Seq<Vec<char>>) -> Seq<Seq<char>> {
    v.map_values(|x: Vec<char>| x@)
}

pub open spec fn strip_cr(l: Seq<char>) -> Seq<char> {
    if l.len() > 0 && l.last() == '\r' {
        l.drop_last()
    } else {
        l
    }
}

/// What `str::lines` yields: the text split at `\n`, a `\r` before each `\n`
/// dropped, and no empty line after a final `\n`.
pub open spec fn lines(s: Seq<char>) -> Seq<Seq<char>>
    decreases s.len(),
{
    if s.len() == 0 {
        seq![]
    } else {
        match index_of(s, '\n') {
            Some(i) => {
                proof {
                    lemma_find_bounds(s, seq!['\n']);
                }
                seq![strip_cr(s.take(i))] + lines(s.skip(i + 1))
            },
            None => seq![s],
        }
    }
}

pub fn lines_of(s: &[char]) -> (r: Vec<Vec<char>>)
    ensures
        views(r@) == lines(s@),
{
    let n = s.len();
    let mut out: Vec<Vec<char>> = Vec::new();
    let mut pos: usize = 0;
    assert(s@.skip(0) == s@);
    assert(views(out@) + lines(s@) == lines(s@));
    while pos < n
        invariant
            pos <= n == s@.len(),
            views(out@) + lines(s@.skip(pos as int)) == lines(s@),
        decreases n - pos,
    {
        let rest = tail_of(s, pos);
        proof {
            lemma_find_bounds(rest@, seq!['\n']);
        }
        let ghost old_out = out@;
        match find_char(rest, '\n') {
            Some(k) => {
                let mut line = slice_of(rest, 0, k);
                if k > 0 && rest[k - 1] == '\r' {
                    line.pop();
                }
                assert(line@ == strip_cr(rest@.take(k as int)));
                out.push(line);
                assert(rest@.skip(k + 1) == s@.skip(pos + k + 1));
                assert(views(out@) == views(old_out).push(line@));
                assert(views(out@) + lines(s@.skip(pos + k + 1)) == views(old_out) + lines(
                    rest@,
                ));
                pos = pos + k + 1;
            },
            None => {
                let line = slice_of(rest, 0, rest.len());
                assert(line@ == rest@);
                out.push(line);
                assert(views(out@) == views(old_out).push(line@));
                assert(s@.skip(n as int) == Seq::<char>::empty());
                assert(views(out@) + lines(s@.skip(n as int)) == views(old_out) + lines(rest@));
                pos = n;
            },
        }
    }
    assert(s@.skip(n as int) == Seq::<char>::empty());
    assert(views(out@) + Seq::<Seq<char>>::empty() == views(out@));
    out
}

/// What `str::split` with a single-character separator yields.
pub open spec fn split_char(s: Seq<char>, c: char) -> Seq<Seq<char>>
    decreases s.len(),
{
    match index_of(s, c) {
        Some(i) => {
            proof {
                lemma_find_bounds(s, seq![c]);
            }
            seq![s.take(i)] + split_char(s.skip(i + 1), c)
        },
        None => seq![s],
    }
}

pub fn split_char_of(s: &[char], c: char) -> (r: Vec<Vec<char>>)
    ensures
        views(r@) == split_char(s@, c),
        r@.len() >= 1,
{
    let n = s.len();
    let mut out: Vec<Vec<char>> = Vec::new();
    let mut pos: usize = 0;
    assert(s@.skip(0) == s@);
    assert(views(out@) + split_char(s@, c) == split_char(s@, c));
    loop
        invariant_except_break
            pos <= n == s@.len(),
            views(out@) + split_char(s@.skip(pos as int), c) == split_char(s@, c),
        ensures
            views(out@) == split_char(s@, c),
            out@.len() >= 1,
        decreases n - pos,
    {
        let rest = tail_of(s, pos);
        proof {
            lemma_find_bounds(rest@, seq![c]);
        }
        let ghost old_out = out@;
        match find_char(rest, c) {
            Some(k) => {
                let piece = slice_of(rest, 0, k);
                out.push(piece);
                assert(rest@.skip(k + 1) == s@.skip(pos + k + 1));
                assert(views(out@) == views(old_out).push(piece@));
                assert(views(out@) + split_char(s@.skip(pos + k + 1), c) == views(old_out)
                    + split_char(rest@, c));
                pos = pos + k + 1;
            },
            None => {
                let piece = slice_of(rest, 0, rest.len());
                assert(piece@ == rest@);
                out.push(piece);
                assert(views(out@) == views(old_out).push(piece@));
                assert(views(out@) == views(old_out) + split_char(rest@, c));
                break ;
            },
        }
    }
    out
}

/// `p` is found right after a prefix `a` in which no character starts `p`,
/// and splitting there gives `a` and what follows `p`.
pub proof fn lemma_split_at_first(a: Seq<char>, p: Seq<char>, b: Seq<char>)
    requires
        p.len() > 0,
        forall|i: int| 0 <= i < a.len() ==> a[i] != p[0],
    ensures
        find(a + p + b, p) == Some(a.len() as int),
        split_once(a + p + b, p) == Some((a, b)),
{
    let s = a + p + b;
    let n = a.len() as int;
    lemma_find_bounds(s, p);
    assert(s.subrange(n, n + p.len()) =~= p);
    assert(occurs_at(s, p, n));
    assert forall|j: int| 0 <= j < n implies !occurs_at(s, p, j) by {
        if occurs_at(s, p, j) {
            assert(s.subrange(j, j + p.len())[0] == s[j]);
            assert(s[j] == a[j]);
        }
    }
    match find(s, p) {
        Some(k) => {
            if k > n {
                assert(!occurs_at(s, p, n));
            }
        },
        None => {
            assert(!occurs_at(s, p, n));
        },
    }
    assert(s.take(n) =~= a);
    assert(s.skip(n + p.len()) =~= b);
}

/// A text that lacks one of the characters of `p` does not contain `p`.
pub proof fn lemma_find_none_char(s: Seq<char>, p: Seq<char>, m: int)
    requires
        0 <= m < p.len(),
        forall|i: int| 0 <= i < s.len() ==> s[i] != p[m],
    ensures
        find(s, p) is None,
{
    lemma_find_bounds(s, p);
    if let Some(k) = find(s, p) {
        assert(s.subrange(k, k + p.len())[m] == s[k + m]);
    }
}

/// A text in which no character starts `p` does not contain `p`.
pub proof fn lemma_find_none(s: Seq<char>, p: Seq<char>)
    requires
        p.len() > 0,
        forall|i: int| 0 <= i < s.len() ==> s[i] != p[0],
    ensures
        find(s, p) is None,
        split_once(s, p) is None,
{
    lemma_find_bounds(s, p);
    if let Some(k) = find(s, p) {
        assert(s.subrange(k, k + p.len())[0] == s[k]);
    }
}

/// What `str::split_once` returns.
pub open spec fn split_once(s: Seq<char>, p: Seq<char>) -> Option<(Seq<char>, Seq<char>)> {
    match find(s, p) {
        Some(i) => Some((s.take(i), s.skip(i + p.len()))),
        None => None,
    }
}

pub fn split_once_of(s: &[char], p: &str) -> (r: Option<(Vec<char>, Vec<char>)>)
    ensures
        r matches Some((a, b)) ==> split_once(s@, p@) == Some((a@, b@)),
        r is None ==> split_once(s@, p@) is None,
{
    proof {
        lemma_find_bounds(s@, p@);
    }
    let pv = chars_of(p);
    match find_at(s, pv.as_slice(), 0) {
        Some(k) => {
            assert(pv@ == p@);
            assert(find(s@, p@) == Some(k as int));
            let sl = s.len();
            assert(k + pv@.len() <= sl);
            let a = slice_of(s, 0, k);
            let b = slice_of(s, k + pv.len(), sl);
            assert(b@ == s@.skip(k + pv@.len()));
            Some((a, b))
        },
        None => None,
    }
}

/// What `str::strip_prefix` returns.
pub open spec fn strip_prefix(s: Seq<char>, p: Seq<char>) -> Option<Seq<char>> {
    if starts_with(s, p) {
        Some(s.skip(p.len() as int))
    } else {
        None
    }
}

pub fn strip_prefix_of(s: &[char], p: &str) -> (r: Option<Vec<char>>)
    ensures
        r matches Some(a) ==> strip_prefix(s@, p@) == Some(a@),
        r is None ==> strip_prefix(s@, p@) is None,
{
    let pv = chars_of(p);
    if starts_with_str(s, p) {
        Some(slice_of(s, pv.len(), s.len()))
    } else {
        None
    }
}

// ── Replacement and joining ──────────────────────────────────────────────────

/// What `str::replace` returns for a non-empty pattern.
pub open spec fn replace(s: Seq<char>, from: Seq<char>, to: Seq<char>) -> Seq<char>
    recommends
        from.len() > 0,
    decreases s.len(),
{
    if from.len() == 0 {
        s
    } else {
        match find(s, from) {
            Some(i) => {
                proof {
                    lemma_find_bounds(s, from);
                }
                s.take(i) + to + replace(s.skip(i + from.len()), from, to)
            },
            None => s,
        }
    }
}

pub fn replace_of(s: &[char], from: &[char], to: &[char]) -> (r: Vec<char>)
    requires
        from@.len() > 0,
    ensures
        r@ == replace(s@, from@, to@),
{
    let n = s.len();
    let mut out: Vec<char> = Vec::new();
    let mut pos: usize = 0;
    assert(s@.skip(0) == s@);
    assert(out@ + replace(s@, from@, to@) == replace(s@, from@, to@));
    loop
        invariant_except_break
            pos <= n == s@.len(),
            from@.len() > 0,
            out@ + replace(s@.skip(pos as int), from@, to@) == replace(s@, from@, to@),
        ensures
            out@ == replace(s@, from@, to@),
        decreases n - pos,
    {
        let rest = tail_of(s, pos);
        proof {
            lemma_find_bounds(rest@, from@);
        }
        let ghost old_out = out@;
        match find_at(rest, from, 0) {
            Some(k) => {
                let head = slice_of(rest, 0, k);
                append(&mut out, head.as_slice());
                append(&mut out, to);
                assert(rest@.skip(k + from@.len()) == s@.skip(pos + k + from@.len()));
                assert(out@ + replace(s@.skip(pos + k + from@.len()), from@, to@) == old_out
                    + replace(rest@, from@, to@));
                pos = pos + k + from.len();
            },
            None => {
                append(&mut out, rest);
                break ;
            },
        }
    }
    out
}

pub fn replace_str(s: &[char], from: &str, to: &str) -> (r: Vec<char>)
    requires
        from@.len() > 0,
    ensures
        r@ == replace(s@, from@, to@),
{
    let f = chars_of(from);
    let t = chars_of(to);
    replace_of(s, f.as_slice(), t.as_slice())
}

/// What `[..].join(sep)` returns.
pub open spec fn join(parts: Seq<Seq<char>>, sep: Seq<char>) -> Seq<char>
    decreases parts.len(),
{
    if parts.len() == 0 {
        seq![]
    } else if parts.len() == 1 {
        parts[0]
    } else {
        join(parts.drop_last(), sep) + sep + parts.last()
    }
}

pub fn join_of(parts: &Vec<Vec<char>>, sep: &[char]) -> (r: Vec<char>)
    ensures
        r@ == join(views(parts@), sep@),
{
    let n = parts.len();
    let mut out: Vec<char> = Vec::new();
    for i in 0..n
        invariant
            n == parts@.len(),
            out@ == join(views(parts@.take(i as int)), sep@),
    {
        assert(views(parts@.take(i + 1)).drop_last() == views(parts@.take(i as int)));
        if i > 0 {
            append(&mut out, sep);
        }
        append(&mut out, parts[i].as_slice());
        assert(views(parts@.take(i + 1)).last() == parts@[i as int]@);
    }
    assert(parts@.take(n as int) == parts@);
    out
}

/// Length of the run of non-whitespace characters that starts `s`.
pub open spec fn word_len(s: Seq<char>) -> int
    decreases s.len(),
{
    if s.len() == 0 || is_ws(s[0]) {
        0
    } else {
        1 + word_len(s.drop_first())
    }
}

pub proof fn lemma_word_len_bounds(s: Seq<char>)
    ensures
        0 <= word_len(s) <= s.len(),
        s.len() > 0 && !is_ws(s[0]) ==> word_len(s) >= 1,
    decreases s.len(),
{
    if s.len() > 0 && !is_ws(s[0]) {
        lemma_word_len_bounds(s.drop_first());
    }
}

pub proof fn lemma_word_len_at(s: Seq<char>, k: int)
    requires
        0 <= k <= s.len(),
        forall|j: int| 0 <= j < k ==> !is_ws(s[j]),
        k == s.len() || is_ws(s[k]),
    ensures
        word_len(s) == k,
    decreases k,
{
    if k > 0 {
        lemma_word_len_at(s.drop_first(), k - 1);
    }
}

/// What `str::split_whitespace` yields: the maximal runs of non-whitespace.
pub open spec fn split_ws(s: Seq<char>) -> Seq<Seq<char>>
    decreases s.len(),
{
    if s.len() == 0 {
        seq![]
    } else if is_ws(s[0]) {
        split_ws(s.drop_first())
    } else {
        proof {
            lemma_word_len_bounds(s);
        }
        seq![s.take(word_len(s))] + split_ws(s.skip(word_len(s)))
    }
}

pub fn split_ws_of(s: &[char]) -> (r: Vec<Vec<char>>)
    ensures
        views(r@) == split_ws(s@),
{
    let n = s.len();
    let mut out: Vec<Vec<char>> = Vec::new();
    let mut pos: usize = 0;
    assert(s@.skip(0) == s@);
    assert(views(out@) + split_ws(s@) == split_ws(s@));
    while pos < n
        invariant
            pos <= n == s@.len(),
            views(out@) + split_ws(s@.skip(pos as int)) == split_ws(s@),
        decreases n - pos,
    {
        if is_whitespace(s[pos]) {
            assert(s@.skip(pos as int).drop_first() == s@.skip(pos + 1));
            pos += 1;
        } else {
            let mut e = pos;
            while e < n && !is_whitespace(s[e])
                invariant
                    pos <= e <= n == s@.len(),
                    forall|j: int| pos <= j < e ==> !is_ws(s@[j]),
                decreases n - e,
            {
                e += 1;
            }
            let ghost rest = s@.skip(pos as int);
            proof {
                lemma_word_len_at(rest, e - pos);
            }
            let word = slice_of(s, pos, e);
            let ghost old_out = out@;
            out.push(word);
            assert(rest.take(e - pos) == word@);
            assert(rest.skip(e - pos) == s@.skip(e as int));
            assert(views(out@) == views(old_out).push(word@));
            assert(views(out@) + split_ws(s@.skip(e as int)) == views(old_out) + split_ws(rest));
            pos = e;
        }
    }
    assert(s@.skip(n as int) == Seq::<char>::empty());
    assert(views(out@) + Seq::<Seq<char>>::empty() == views(out@));
    out
}

/// Vectors of characters as `String`s.
pub fn strings_of(v: &Vec<Vec<char>>) -> (r: Vec<String>)
    ensures
        r@.len() == v@.len(),
        forall|i: int| 0 <= i < v@.len() ==> #[trigger] r@[i]@ == v@[i]@,
{
    let mut r: Vec<String> = Vec::new();
    let n = v.len();
    for i in 0..n
        invariant
            n == v@.len(),
            r@.len() == i,
            forall|j: int| 0 <= j < i ==> #[trigger] r@[j]@ == v@[j]@,
    {
        r.push(string_of(v[i].as_slice()));
    }
    r
}

// ── Decimal numerals ─────────────────────────────────────────────────────────

/// The ASCII digit for `d` in `0..10`.
pub open spec fn digit_char(d: int) -> char {
    if d == 0 {
        '0'
    } else if d == 1 {
        '1'
    } else if d == 2 {
        '2'
    } else if d == 3 {
        '3'
    } else if d == 4 {
        '4'
    } else if d == 5 {
        '5'
    } else if d == 6 {
        '6'
    } else if d == 7 {
        '7'
    } else if d == 8 {
        '8'
    } else {
        '9'
    }
}

fn digit_of(d: u64) -> (c: char)
    requires
        d < 10,
    ensures
        c == digit_char(d as int),
{
    if d == 0 {
        '0'
    } else if d == 1 {
        '1'
    } else if d == 2 {
        '2'
    } else if d == 3 {
        '3'
    } else if d == 4 {
        '4'
    } else if d == 5 {
        '5'
    } else if d == 6 {
        '6'
    } else if d == 7 {
        '7'
    } else if d == 8 {
        '8'
    } else {
        '9'
    }
}

/// The decimal numeral of `n`, without leading zeros.
pub open spec fn nat_decimal(n: nat) -> Seq<char>
    decreases n,
{
    if n < 10 {
        seq![digit_char(n as int)]
    } else {
        nat_decimal(n / 10).push(digit_char((n % 10) as int))
    }
}

/// What `to_string` gives for an integer: its decimal numeral, with a
/// leading `-` when it is negative.
pub open spec fn int_decimal(i: int) -> Seq<char> {
    if i < 0 {
        seq!['-'] + nat_decimal((-i) as nat)
    } else {
        nat_decimal(i as nat)
    }
}

/// What `format!("{:02}", i)` gives: the numeral zero-padded to two places.
pub open spec fn zero_pad2(i: int) -> Seq<char> {
    if 0 <= i < 10 {
        seq!['0'] + nat_decimal(i as nat)
    } else {
        int_decimal(i)
    }
}

proof fn lemma_digit_char(d: int)
    requires
        0 <= d < 10,
    ensures
        '0' <= digit_char(d) <= '9',
        digit_char(d) as int - '0' as int == d,
{
}

/// A decimal numeral is a run of digits that reads back as its number.
pub proof fn law_decimal_reads_back(n: nat)
    ensures
        all_digits(nat_decimal(n)),
        digits_value(nat_decimal(n)) == n,
    decreases n,
{
    if n < 10 {
        lemma_digit_char(n as int);
        let z = seq![digit_char(n as int)];
        assert(z.drop_last() =~= Seq::<char>::empty());
        assert(digits_value(Seq::<char>::empty()) == 0);
        assert(digits_value(z) == digits_value(z.drop_last()) * 10 + (z.last() as int - '0' as int));
    } else {
        law_decimal_reads_back(n / 10);
        lemma_digit_char((n % 10) as int);
        let s = nat_decimal(n / 10);
        assert(nat_decimal(n).drop_last() =~= s);
        assert(nat_decimal(n).last() == digit_char((n % 10) as int));
        vstd::arithmetic::div_mod::lemma_fundamental_div_mod(n as int, 10);
        assert(digits_value(nat_decimal(n)) == digits_value(s) * 10 + (n % 10));
        assert forall|i: int| 0 <= i < nat_decimal(n).len() implies '0' <= #[trigger] nat_decimal(n)[i] <= '9' by {
            if i < s.len() {
                assert(nat_decimal(n)[i] == s[i]);
            }
        }
    }
}

/// A number from 0 to 99 padded to two places is two digits that read
/// back as the number.
pub proof fn law_zero_pad2_reads_back(i: int)
    requires
        0 <= i < 100,
    ensures
        zero_pad2(i).len() == 2,
        all_digits(zero_pad2(i)),
        digits_value(zero_pad2(i)) == i,
{
    law_decimal_reads_back(i as nat);
    let d = nat_decimal(i as nat);
    if i < 10 {
        assert(d =~= seq![digit_char(i)]);
        lemma_digit_char(i);
        let z = zero_pad2(i);
        assert(z =~= seq!['0', digit_char(i)]);
        assert(z.drop_last() =~= seq!['0']);
        assert(seq!['0'].drop_last() =~= Seq::<char>::empty());
        assert(digits_value(Seq::<char>::empty()) == 0);
        assert(digits_value(seq!['0']) == digits_value(seq!['0'].drop_last()) * 10 + ('0' as int - '0' as int));
        assert(digits_value(z) == digits_value(z.drop_last()) * 10 + (z.last() as int - '0' as int));
    } else {
        assert(nat_decimal((i / 10) as nat) =~= seq![digit_char(i / 10)]);
        assert(d.len() == 2);
        assert(zero_pad2(i) == d);
    }
}

/// Writing a 32-bit integer in decimal and parsing it back gives the
/// integer.
pub proof fn law_i32_decimal_round_trip(i: i32)
    ensures
        parse_i32_spec(int_decimal(i as int)) == Some(i),
{
    if i < 0 {
        law_decimal_reads_back((-i) as nat);
        let s = int_decimal(i as int);
        assert(s.drop_first() =~= nat_decimal((-i) as nat));
    } else {
        law_decimal_reads_back(i as nat);
        let s = nat_decimal(i as nat);
        assert('0' <= s[0] <= '9');
    }
}

pub fn decimal_of_u64(n: u64) -> (r: Vec<char>)
    ensures
        r@ == nat_decimal(n as nat),
    decreases n,
{
    if n < 10 {
        let mut v: Vec<char> = Vec::new();
        v.push(digit_of(n));
        v
    } else {
        let mut v = decimal_of_u64(n / 10);
        v.push(digit_of(n % 10));
        v
    }
}

pub fn decimal_of_i32(i: i32) -> (r: Vec<char>)
    ensures
        r@ == int_decimal(i as int),
{
    if i < 0 {
        let m: i64 = -(i as i64);
        let d = decimal_of_u64(m as u64);
        let mut v: Vec<char> = vec!['-'];
        append(&mut v, d.as_slice());
        v
    } else {
        decimal_of_u64(i as u64)
    }
}

pub fn decimal_of_i64(i: i64) -> (r: Vec<char>)
    ensures
        r@ == int_decimal(i as int),
{
    if i < 0 {
        let m: i128 = -(i as i128);
        let d = decimal_of_u64(m as u64);
        let mut v: Vec<char> = vec!['-'];
        append(&mut v, d.as_slice());
        v
    } else {
        decimal_of_u64(i as u64)
    }
}

pub fn zero_pad2_of(i: i32) -> (r: Vec<char>)
    ensures
        r@ == zero_pad2(i as int),
{
    if 0 <= i && i < 10 {
        let d = decimal_of_u64(i as u64);
        let mut v: Vec<char> = vec!['0'];
        append(&mut v, d.as_slice());
        v
    } else {
        decimal_of_i32(i)
    }
}

/// Every word that `split_ws` yields is non-empty.
pub proof fn lemma_split_ws_nonempty(s: Seq<char>)
    ensures
        forall|i: int| 0 <= i < split_ws(s).len() ==> (#[trigger] split_ws(s)[i]).len() > 0,
    decreases s.len(),
{
    if s.len() > 0 {
        if is_ws(s[0]) {
            lemma_split_ws_nonempty(s.drop_first());
            assert(split_ws(s) == split_ws(s.drop_first()));
        } else {
            lemma_word_len_bounds(s);
            lemma_split_ws_nonempty(s.skip(word_len(s)));
            let rest = split_ws(s.skip(word_len(s)));
            assert(split_ws(s) == seq![s.take(word_len(s))] + rest);
            assert(split_ws(s)[0] == s.take(word_len(s)));
            assert forall|i: int| 0 <= i < split_ws(s).len() implies (#[trigger] split_ws(s)[i]).len() > 0 by {
                if i > 0 {
                    assert(split_ws(s)[i] == rest[i - 1]);
                }
            }
        }
    }
}

/// The first `k` of `parts`, copied.
pub fn take_parts(parts: &Vec<Vec<char>>, k: usize) -> (r: Vec<Vec<char>>)
    requires
        k <= parts@.len(),
    ensures
        views(r@) == views(parts@).take(k as int),
{
    let mut r: Vec<Vec<char>> = Vec::new();
    for i in 0..k
        invariant
            k <= parts@.len(),
            views(r@) == views(parts@).take(i as int),
    {
        let c = copy_chars(parts[i].as_slice());
        let ghost before = r@;
        r.push(c);
        assert(views(r@) =~= views(before).push(c@));
        assert(views(parts@).take(i + 1) =~= views(parts@).take(i as int).push(parts@[i as int]@));
    }
    r
}

/// The parts of `parts` from index `k` on, copied.
pub fn skip_parts(parts: &Vec<Vec<char>>, k: usize) -> (r: Vec<Vec<char>>)
    requires
        k <= parts@.len(),
    ensures
        views(r@) == views(parts@).skip(k as int),
{
    let mut r: Vec<Vec<char>> = Vec::new();
    let n = parts.len();
    let mut i = k;
    while i < n
        invariant
            k <= i <= n == parts@.len(),
            views(r@) == views(parts@).subrange(k as int, i as int),
        decreases n - i,
    {
        let c = copy_chars(parts[i].as_slice());
        let ghost before = r@;
        r.push(c);
        assert(views(r@) =~= views(before).push(c@));
        assert(views(parts@).subrange(k as int, i + 1) =~= views(parts@).subrange(k as int, i as int).push(parts@[i as int]@));
        i += 1;
    }
    assert(views(parts@).subrange(k as int, n as int) =~= views(parts@).skip(k as int));
    r
}

/// A copy of `s`.
pub fn copy_chars(s: &[char]) -> (r: Vec<char>)
    ensures
        r@ == s@,
{
    let r = slice_of(s, 0, s.len());
    assert(s@.subrange(0, s@.len() as int) =~= s@);
    r
}

// ── Lexicographic order ──────────────────────────────────────────────────────

/// Whether `a` sorts strictly before `b`, character by character, as
/// `String`'s `<` orders them (UTF-8 keeps the order of code points).
pub open spec fn lex_less(a: Seq<char>, b: Seq<char>) -> bool
    decreases a.len(),
{
    if b.len() == 0 {
        false
    } else if a.len() == 0 {
        true
    } else if a[0] < b[0] {
        true
    } else if a[0] == b[0] {
        lex_less(a.drop_first(), b.drop_first())
    } else {
        false
    }
}

pub fn lex_less_of(a: &[char], b: &[char]) -> (r: bool)
    ensures
        r == lex_less(a@, b@),
{
    let mut i: usize = 0;
    assert(a@.skip(0) =~= a@);
    assert(b@.skip(0) =~= b@);
    while i < a.len() && i < b.len() && a[i] == b[i]
        invariant
            i <= a@.len(),
            i <= b@.len(),
            lex_less(a@, b@) == lex_less(a@.skip(i as int), b@.skip(i as int)),
        decreases a@.len() - i,
    {
        assert(a@.skip(i as int).drop_first() =~= a@.skip(i + 1));
        assert(b@.skip(i as int).drop_first() =~= b@.skip(i + 1));
        i += 1;
    }
    if i < a.len() && i < b.len() {
        assert(a@.skip(i as int)[0] == a@[i as int]);
        assert(b@.skip(i as int)[0] == b@[i as int]);
    }
    if i == b.len() {
        false
    } else if i == a.len() {
        true
    } else {
        a[i] < b[i]
    }
}

pub proof fn lemma_lex_less_irreflexive(a: Seq<char>)
    ensures
        !lex_less(a, a),
    decreases a.len(),
{
    if a.len() > 0 {
        lemma_lex_less_irreflexive(a.drop_first());
    }
}

pub proof fn lemma_lex_less_transitive(a: Seq<char>, b: Seq<char>, c: Seq<char>)
    requires
        lex_less(a, b),
        lex_less(b, c),
    ensures
        lex_less(a, c),
    decreases a.len(),
{
    if a.len() > 0 && b.len() > 0 && c.len() > 0 && a[0] == b[0] && b[0] == c[0] {
        lemma_lex_less_transitive(a.drop_first(), b.drop_first(), c.drop_first());
    }
}

pub proof fn lemma_lex_less_total(a: Seq<char>, b: Seq<char>)
    ensures
        a == b || lex_less(a, b) || lex_less(b, a),
    decreases a.len(),
{
    if a.len() == 0 && b.len() == 0 {
        assert(a =~= b);
    } else if a.len() > 0 && b.len() > 0 && a[0] == b[0] {
        lemma_lex_less_total(a.drop_first(), b.drop_first());
        if a.drop_first() == b.drop_first() {
            assert(a.drop_first().len() == b.drop_first().len());
            assert(a.len() == b.len());
            assert forall|i: int| 0 <= i < a.len() implies a[i] == b[i] by {
                if i > 0 {
                    assert(a[i] == a.drop_first()[i - 1]);
                    assert(b[i] == b.drop_first()[i - 1]);
                }
            }
            assert(a =~= b);
        }
    }
}

// ── Integer parsing ──────────────────────────────────────────────────────────

/// The value of a run of ASCII digits.
pub open spec fn digits_value(d: Seq<char>) -> int
    decreases d.len(),
{
    if d.len() == 0 {
        0
    } else {
        digits_value(d.drop_last()) * 10 + (d.last() as int - '0' as int)
    }
}

pub open spec fn all_digits(d: Seq<char>) -> bool {
    d.len() > 0 && forall|i: int| 0 <= i < d.len() ==> '0' <= #[trigger] d[i] <= '9'
}

/// What `str::parse::<i32>` accepts: an optional `+` or `-` followed by one
/// or more ASCII digits, whose value fits in an `i32`.
pub open spec fn parse_i32_spec(s: Seq<char>) -> Option<i32> {
    let neg = s.len() > 0 && s[0] == '-';
    let d = if s.len() > 0 && (s[0] == '-' || s[0] == '+') {
        s.drop_first()
    } else {
        s
    };
    let v = if neg {
        -digits_value(d)
    } else {
        digits_value(d)
    };
    if all_digits(d) && i32::MIN <= v <= i32::MAX {
        Some(v as i32)
    } else {
        None
    }
}

proof fn lemma_digits_grow(d: Seq<char>, k: int)
    requires
        0 <= k <= d.len(),
        forall|i: int| 0 <= i < d.len() ==> '0' <= #[trigger] d[i] <= '9',
    ensures
        0 <= digits_value(d.take(k)) <= digits_value(d),
    decreases d.len(),
{
    if k == d.len() {
        assert(d.take(k) =~= d);
        lemma_digits_nonneg(d);
    } else {
        let p = d.drop_last();
        assert forall|i: int| 0 <= i < p.len() implies '0' <= #[trigger] p[i] <= '9' by {
            assert(p[i] == d[i]);
        }
        lemma_digits_grow(p, k);
        assert(p.take(k) =~= d.take(k));
        lemma_digits_nonneg(p);
    }
}

proof fn lemma_digits_nonneg(d: Seq<char>)
    requires
        forall|i: int| 0 <= i < d.len() ==> '0' <= #[trigger] d[i] <= '9',
    ensures
        digits_value(d) >= 0,
    decreases d.len(),
{
    if d.len() > 0 {
        let p = d.drop_last();
        assert forall|i: int| 0 <= i < p.len() implies '0' <= #[trigger] p[i] <= '9' by {
            assert(p[i] == d[i]);
        }
        lemma_digits_nonneg(p);
        assert(d[d.len() - 1] == d.last());
    }
}

/// Reads an `i32` as `str::parse::<i32>` does: an optional `+` or `-`
/// followed by one or more ASCII digits, whose value fits in an `i32`.
pub(crate) fn parse_i32(s: &str) -> (r: Option<i32>)
    ensures
        r == parse_i32_spec(s@),
{
    let c = chars_of(s);
    let n = c.len();
    let neg = n > 0 && c[0] == '-';
    let start: usize = if n > 0 && (c[0] == '-' || c[0] == '+') {
        1
    } else {
        0
    };
    let ghost d = if n > 0 && (c@[0] == '-' || c@[0] == '+') {
        s@.drop_first()
    } else {
        s@
    };
    assert(d =~= c@.skip(start as int));
    if start >= n {
        return None;
    }
    let mut value: i64 = 0;
    let mut i: usize = start;
    while i < n
        invariant
            start <= i <= n == c@.len(),
            start < n,
            c@ == s@,
            d =~= c@.skip(start as int),
            d == (if s@.len() > 0 && (s@[0] == '-' || s@[0] == '+') {
                s@.drop_first()
            } else {
                s@
            }),
            forall|j: int| start <= j < i ==> '0' <= #[trigger] c@[j] <= '9',
            value == digits_value(d.take(i - start)),
            0 <= value <= 2147483648,
        decreases n - i,
    {
        let ch = c[i];
        if !('0' <= ch && ch <= '9') {
            assert(d[i - start] == ch);
            return None;
        }
        assert(d.take(i + 1 - start).drop_last() =~= d.take(i - start));
        assert(d.take(i + 1 - start).last() == ch);
        let digit: i64 = (ch as u32 - '0' as u32) as i64;
        value = value * 10 + digit;
        if value > 2147483648 {
            proof {
                if all_digits(d) {
                    lemma_digits_grow(d, i + 1 - start);
                }
            }
            return None;
        }
        i += 1;
    }
    assert(d.take(n - start) =~= d);
    assert(all_digits(d));
    if neg {
        Some((-value) as i32)
    } else if value <= 2147483647 {
        Some(value as i32)
    } else {
        None
    }
}

// ── Splitting at a separator string ──────────────────────────────────────────

/// What `str::split(p)` yields for a non-empty separator `p`.
pub open spec fn split_on(s: Seq<char>, p: Seq<char>) -> Seq<Seq<char>>
    decreases s.len(),
{
    if p.len() == 0 {
        seq![s]
    } else {
        match find(s, p) {
            Some(i) => {
                proof {
                    lemma_find_bounds(s, p);
                }
                seq![s.take(i)] + split_on(s.skip(i + p.len()), p)
            },
            None => seq![s],
        }
    }
}

pub fn split_on_of(s: &[char], p: &str) -> (r: Vec<Vec<char>>)
    requires
        p@.len() > 0,
    ensures
        views(r@) == split_on(s@, p@),
{
    let pv = chars_of(p);
    let n = s.len();
    let mut out: Vec<Vec<char>> = Vec::new();
    let mut pos: usize = 0;
    assert(s@.skip(0) == s@);
    assert(views(out@) + split_on(s@, p@) == split_on(s@, p@));
    loop
        invariant_except_break
            pos <= n == s@.len(),
            pv@ == p@,
            p@.len() > 0,
            views(out@) + split_on(s@.skip(pos as int), p@) == split_on(s@, p@),
        ensures
            views(out@) == split_on(s@, p@),
        decreases n - pos,
    {
        let rest = tail_of(s, pos);
        proof {
            lemma_find_bounds(rest@, p@);
        }
        let ghost old_out = out@;
        match find_seq(rest, pv.as_slice()) {
            Some(k) => {
                let piece = slice_of(rest, 0, k);
                out.push(piece);
                assert(rest@.skip(k + pv@.len()) == s@.skip(pos + k + pv@.len()));
                assert(views(out@) == views(old_out).push(piece@));
                assert(views(out@) + split_on(s@.skip(pos + k + pv@.len()), p@) == views(old_out)
                    + split_on(rest@, p@));
                pos = pos + k + pv.len();
            },
            None => {
                let piece = slice_of(rest, 0, rest.len());
                assert(piece@ == rest@);
                out.push(piece);
                assert(views(out@) == views(old_out).push(piece@));
                assert(views(out@) == views(old_out) + split_on(rest@, p@));
                break ;
            },
        }
    }
    out
}

} // verus!
