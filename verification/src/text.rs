//! Character-level text handling: the whitespace, line and delimiter
//! splitting that the scanners rely on, with each operation stated as a
//! function on character sequences.
use vstd::prelude::*;

verus! {

/// Unicode `White_Space`, the set `char::is_whitespace` answers for.
pub open spec fn is_ws(c: char) -> bool {
    let u = c as u32;
    ||| 0x09 <= u <= 0x0D
    ||| u == 0x20
    ||| u == 0x85
    ||| u == 0xA0
    ||| u == 0x1680
    ||| 0x2000 <= u <= 0x200A
    ||| u == 0x2028
    ||| u == 0x2029
    ||| u == 0x202F
    ||| u == 0x205F
    ||| u == 0x3000
}

/// Number of leading characters that are not `d`: the position of the first
/// `d`, or the length when there is none.
pub open spec fn prefix_len(s: Seq<char>, d: char) -> nat
    decreases s.len(),
{
    if s.len() == 0 || s[0] == d {
        0
    } else {
        1 + prefix_len(s.drop_first(), d)
    }
}

/// Number of trailing characters that are not `d`.
pub open spec fn suffix_len(s: Seq<char>, d: char) -> nat
    decreases s.len(),
{
    if s.len() == 0 || s.last() == d {
        0
    } else {
        1 + suffix_len(s.drop_last(), d)
    }
}

/// Number of leading characters that are not whitespace.
pub open spec fn token_len(s: Seq<char>) -> nat
    decreases s.len(),
{
    if s.len() == 0 || is_ws(s[0]) {
        0
    } else {
        1 + token_len(s.drop_first())
    }
}

pub proof fn lemma_prefix_len(s: Seq<char>, d: char)
    ensures
        prefix_len(s, d) <= s.len(),
        forall|i: int| 0 <= i < prefix_len(s, d) ==> s[i] != d,
        prefix_len(s, d) < s.len() ==> s[prefix_len(s, d) as int] == d,
    decreases s.len(),
{
    if s.len() > 0 && s[0] != d {
        lemma_prefix_len(s.drop_first(), d);
        assert forall|i: int| 0 <= i < prefix_len(s, d) implies s[i] != d by {
            if i > 0 {
                assert(s[i] == s.drop_first()[i - 1]);
            }
        }
    }
}

pub proof fn lemma_suffix_len(s: Seq<char>, d: char)
    ensures
        suffix_len(s, d) <= s.len(),
        forall|i: int| s.len() - suffix_len(s, d) <= i < s.len() ==> s[i] != d,
        suffix_len(s, d) < s.len() ==> s[s.len() - suffix_len(s, d) - 1] == d,
    decreases s.len(),
{
    if s.len() > 0 && s.last() != d {
        lemma_suffix_len(s.drop_last(), d);
        assert forall|i: int| s.len() - suffix_len(s, d) <= i < s.len() implies s[i] != d by {
            if i < s.len() - 1 {
                assert(s[i] == s.drop_last()[i]);
            }
        }
    }
}

pub proof fn lemma_token_len(s: Seq<char>)
    ensures
        token_len(s) <= s.len(),
        forall|i: int| 0 <= i < token_len(s) ==> !is_ws(s[i]),
        token_len(s) < s.len() ==> is_ws(s[token_len(s) as int]),
        s.len() > 0 && !is_ws(s[0]) ==> token_len(s) >= 1,
    decreases s.len(),
{
    if s.len() > 0 && !is_ws(s[0]) {
        lemma_token_len(s.drop_first());
        assert forall|i: int| 0 <= i < token_len(s) implies !is_ws(s[i]) by {
            if i > 0 {
                assert(s[i] == s.drop_first()[i - 1]);
            }
        }
    }
}

/// `str::split_whitespace`: the maximal runs of non-whitespace characters.
pub open spec fn tokens(s: Seq<char>) -> Seq<Seq<char>>
    decreases s.len(),
{
    if s.len() == 0 {
        seq![]
    } else if is_ws(s[0]) {
        tokens(s.drop_first())
    } else {
        let k = token_len(s);
        proof {
            lemma_token_len(s);
        }
        seq![s.take(k as int)] + tokens(s.skip(k as int))
    }
}

/// Drops one trailing carriage return.
pub open spec fn strip_cr(s: Seq<char>) -> Seq<char> {
    if s.len() > 0 && s.last() == '\r' {
        s.drop_last()
    } else {
        s
    }
}

/// `str::lines`: split after each `'\n'`, dropping the `'\n'` and a `'\r'`
/// just before it; a final line ending is optional.
pub open spec fn lines(s: Seq<char>) -> Seq<Seq<char>>
    decreases s.len(),
{
    if s.len() == 0 {
        seq![]
    } else {
        let k = prefix_len(s, '\n');
        proof {
            lemma_prefix_len(s, '\n');
        }
        if k == s.len() {
            seq![s]
        } else {
            seq![strip_cr(s.take(k as int))] + lines(s.skip((k + 1) as int))
        }
    }
}

/// A sequence without its first element, or empty when it has none: what
/// `.skip(1)` leaves of an iterator.
pub open spec fn skip_first<T>(s: Seq<T>) -> Seq<T> {
    if s.len() == 0 {
        s
    } else {
        s.drop_first()
    }
}

/// `s.split(d).next()`: everything before the first `d`.
pub open spec fn before_first(s: Seq<char>, d: char) -> Seq<char> {
    s.take(prefix_len(s, d) as int)
}

/// `s.split_once(d)`.
pub open spec fn split_once(s: Seq<char>, d: char) -> Option<(Seq<char>, Seq<char>)> {
    let k = prefix_len(s, d);
    if k < s.len() {
        Some((s.take(k as int), s.skip((k + 1) as int)))
    } else {
        None
    }
}

/// `s.split(d).nth(1)`: the piece between the first and the second `d`.
pub open spec fn second_piece(s: Seq<char>, d: char) -> Option<Seq<char>> {
    match split_once(s, d) {
        Some((_, rest)) => Some(before_first(rest, d)),
        None => None,
    }
}

/// `s.rsplit(d).next()`: everything after the last `d`.
pub open spec fn after_last(s: Seq<char>, d: char) -> Seq<char> {
    s.skip(s.len() - suffix_len(s, d))
}

/// What follows the last `c` of `s`, `c` and `d` is `d`, when `d` holds no `c`.
pub proof fn lemma_after_last_tail(s: Seq<char>, c: char, d: Seq<char>)
    requires
        forall|i: int| 0 <= i < d.len() ==> d[i] != c,
    ensures
        suffix_len(s.push(c) + d, c) == d.len(),
        after_last(s.push(c) + d, c) == d,
    decreases d.len(),
{
    let t = s.push(c) + d;
    if d.len() > 0 {
        assert(t.drop_last() =~= s.push(c) + d.drop_last());
        lemma_after_last_tail(s, c, d.drop_last());
    }
    assert(t.skip(t.len() - d.len()) =~= d);
}

/// Joins pieces with a separator.
pub open spec fn join(parts: Seq<Seq<char>>, sep: Seq<char>) -> Seq<char>
    decreases parts.len(),
{
    if parts.len() == 0 {
        seq![]
    } else if parts.len() == 1 {
        parts[0]
    } else {
        join(parts.drop_last(), sep) + sep + parts.last()
    }
}

/// Number of trailing `c` characters.
pub open spec fn trailing_run(s: Seq<char>, c: char) -> nat
    decreases s.len(),
{
    if s.len() > 0 && s.last() == c {
        1 + trailing_run(s.drop_last(), c)
    } else {
        0
    }
}

/// `s.trim_end_matches(c)`.
pub open spec fn trim_end(s: Seq<char>, c: char) -> Seq<char> {
    s.take(s.len() - trailing_run(s, c))
}

/// Position of the first `"->"`, or the length when there is none.
pub open spec fn arrow_pos(s: Seq<char>) -> nat
    decreases s.len(),
{
    if s.len() < 2 {
        s.len()
    } else if s[0] == '-' && s[1] == '>' {
        0
    } else {
        1 + arrow_pos(s.drop_first())
    }
}

/// First whitespace-separated token, if any.
pub open spec fn first_token(s: Seq<char>) -> Option<Seq<char>> {
    if tokens(s).len() > 0 {
        Some(tokens(s)[0])
    } else {
        None
    }
}

/// Number of leading whitespace characters.
pub open spec fn leading_ws(s: Seq<char>) -> nat
    decreases s.len(),
{
    if s.len() > 0 && is_ws(s[0]) {
        1 + leading_ws(s.drop_first())
    } else {
        0
    }
}

/// Number of trailing whitespace characters.
pub open spec fn trailing_ws(s: Seq<char>) -> nat
    decreases s.len(),
{
    if s.len() > 0 && is_ws(s.last()) {
        1 + trailing_ws(s.drop_last())
    } else {
        0
    }
}

/// `str::trim`: without leading and trailing whitespace.
pub open spec fn trim(s: Seq<char>) -> Seq<char> {
    let t = s.skip(leading_ws(s) as int);
    t.take(t.len() - trailing_ws(t))
}

/// `s.ends_with(suf)`.
pub open spec fn ends_with(s: Seq<char>, suf: Seq<char>) -> bool {
    suf.len() <= s.len() && s.skip(s.len() - suf.len()) == suf
}

/// Every character is `'0'`.
pub open spec fn all_zero(s: Seq<char>) -> bool {
    forall|i: int| 0 <= i < s.len() ==> s[i] == '0'
}

/// Views of a vector of character vectors.
pub open spec fn views(v: Seq<Vec<char>>) -> Seq<Seq<char>> {
    v.map_values(|x: Vec<char>| x@)
}

/// `char::is_whitespace`.
pub fn is_whitespace(c: char) -> (b: bool)
    ensures
        b == is_ws(c),
{
    let u = c as u32;
    (0x09 <= u && u <= 0x0D) || u == 0x20 || u == 0x85 || u == 0xA0 || u == 0x1680 || (0x2000
        <= u && u <= 0x200A) || u == 0x2028 || u == 0x2029 || u == 0x202F || u == 0x205F || u
        == 0x3000
}

/// The characters of a string slice, in order.
pub fn to_chars(s: &str) -> (out: Vec<char>)
    ensures
        out@ == s@,
{
    let mut out: Vec<char> = Vec::new();
    for c in it: s.chars()
        invariant
            out@ == it.seq().take(it.index() as int),
            it.seq() == s@,
    {
        out.push(c);
    }
    out
}

/// `String::push`: the string afterwards holds its old characters followed
/// by `c`.
#[verifier::external_body]
pub(crate) fn push_char(s: &mut String, c: char)
    ensures
        final(s)@ == old(s)@.push(c),
{
    s.push(c);
}

/// A string holding the given characters.
pub fn from_chars(v: &[char]) -> (s: String)
    ensures
        s@ == v@,
{
    let mut s = String::new();
    let mut i: usize = 0;
    while i < v.len()
        invariant
            i <= v.len(),
            s@ == v@.take(i as int),
        decreases v.len() - i,
    {
        push_char(&mut s, v[i]);
        assert(v@.take(i + 1) =~= v@.take(i as int).push(v@[i as int]));
        i = i + 1;
    }
    assert(v@.take(v.len() as int) =~= v@);
    s
}

/// Appends `t` to `s`.
pub fn push_str(s: &mut String, t: &str)
    ensures
        final(s)@ == old(s)@ + t@,
{
    let ghost start = s@;
    for c in it: t.chars()
        invariant
            s@ == start + it.seq().take(it.index() as int),
            it.seq() == t@,
    {
        push_char(s, c);
        assert(start + it.seq().take(it.index() + 1) =~= start + it.seq().take(it.index() as int)
            + seq![c]);
    }
    assert(t@.take(t@.len() as int) =~= t@);
}

/// The characters of `v` from `start` up to `end`.
pub fn copy_range(v: &[char], start: usize, end: usize) -> (out: Vec<char>)
    requires
        start <= end <= v.len(),
    ensures
        out@ == v@.subrange(start as int, end as int),
{
    let mut out: Vec<char> = Vec::new();
    let mut i = start;
    while i < end
        invariant
            start <= i <= end <= v.len(),
            out@ == v@.subrange(start as int, i as int),
        decreases end - i,
    {
        out.push(v[i]);
        assert(v@.subrange(start as int, i + 1) =~= v@.subrange(start as int, i as int).push(
            v@[i as int],
        ));
        i = i + 1;
    }
    out
}

/// Position of the first `d` at or after `from`, or the length.
pub fn find_from(v: &[char], from: usize, d: char) -> (k: usize)
    requires
        from <= v.len(),
    ensures
        k == from + prefix_len(v@.skip(from as int), d),
        from <= k <= v.len(),
{
    let mut k = from;
    proof {
        lemma_prefix_len(v@.skip(from as int), d);
    }
    while k < v.len() && v[k] != d
        invariant
            from <= k <= v.len(),
            prefix_len(v@.skip(from as int), d) == (k - from) + prefix_len(v@.skip(k as int), d),
        decreases v.len() - k,
    {
        assert(v@.skip(k as int).drop_first() =~= v@.skip(k + 1));
        k = k + 1;
    }
    k
}

/// Start of the run of non-`d` characters that ends the sequence: one past
/// the last `d`, or 0.
pub fn after_last_start(v: &[char], d: char) -> (k: usize)
    ensures
        k == v@.len() - suffix_len(v@, d),
{
    let mut k = v.len();
    proof {
        lemma_suffix_len(v@, d);
        assert(v@.take(k as int) =~= v@);
    }
    while k > 0 && v[k - 1] != d
        invariant
            k <= v.len(),
            suffix_len(v@, d) == (v.len() - k) + suffix_len(v@.take(k as int), d),
        decreases k,
    {
        assert(v@.take(k as int).drop_last() =~= v@.take(k - 1));
        k = k - 1;
    }
    proof {
        if k > 0 {
            assert(v@.take(k as int).last() == v@[k - 1]);
        }
        assert(suffix_len(v@.take(k as int), d) == 0);
    }
    k
}

/// Length of the run of non-whitespace characters starting at `from`.
fn token_end(v: &[char], from: usize) -> (k: usize)
    requires
        from <= v.len(),
    ensures
        k == from + token_len(v@.skip(from as int)),
        from <= k <= v.len(),
{
    let mut k = from;
    proof {
        lemma_token_len(v@.skip(from as int));
    }
    while k < v.len() && !is_whitespace(v[k])
        invariant
            from <= k <= v.len(),
            token_len(v@.skip(from as int)) == (k - from) + token_len(v@.skip(k as int)),
        decreases v.len() - k,
    {
        assert(v@.skip(k as int).drop_first() =~= v@.skip(k + 1));
        k = k + 1;
    }
    k
}

/// `str::split_whitespace`, collected.
pub fn split_whitespace(v: &[char]) -> (out: Vec<Vec<char>>)
    ensures
        views(out@) == tokens(v@),
{
    let mut out: Vec<Vec<char>> = Vec::new();
    let mut i: usize = 0;
    assert(v@.skip(0) =~= v@);
    while i < v.len()
        invariant
            i <= v.len(),
            views(out@) + tokens(v@.skip(i as int)) == tokens(v@),
        decreases v.len() - i,
    {
        let ghost rest = v@.skip(i as int);
        if is_whitespace(v[i]) {
            assert(rest.drop_first() =~= v@.skip(i + 1));
            i = i + 1;
        } else {
            let k = token_end(v, i);
            proof {
                lemma_token_len(rest);
            }
            let tok = copy_range(v, i, k);
            assert(tok@ =~= rest.take(token_len(rest) as int));
            assert(rest.skip(token_len(rest) as int) =~= v@.skip(k as int));
            let ghost before = views(out@);
            out.push(tok);
            assert(views(out@) =~= before.push(tok@));
            assert(views(out@) + tokens(v@.skip(k as int)) =~= before + (seq![tok@] + tokens(
                v@.skip(k as int),
            )));
            i = k;
        }
    }
    assert(tokens(v@.skip(i as int)) =~= seq![]);
    assert(views(out@) + seq![] =~= views(out@));
    out
}

/// `str::lines`, collected.
pub fn split_lines(v: &[char]) -> (out: Vec<Vec<char>>)
    ensures
        views(out@) == lines(v@),
{
    let mut out: Vec<Vec<char>> = Vec::new();
    let mut i: usize = 0;
    assert(v@.skip(0) =~= v@);
    while i < v.len()
        invariant
            i <= v.len(),
            views(out@) + lines(v@.skip(i as int)) == lines(v@),
        decreases v.len() - i,
    {
        let ghost rest = v@.skip(i as int);
        let k = find_from(v, i, '\n');
        proof {
            lemma_prefix_len(rest, '\n');
        }
        let ghost before = views(out@);
        if k == v.len() {
            let line = copy_range(v, i, k);
            assert(line@ =~= rest);
            out.push(line);
            assert(views(out@) =~= before.push(line@));
            assert(views(out@) =~= before + lines(rest));
            i = k;
        } else {
            let end = if k > i && v[k - 1] == '\r' {
                k - 1
            } else {
                k
            };
            let line = copy_range(v, i, end);
            assert(line@ =~= strip_cr(rest.take((k - i) as int)));
            assert(rest.skip((k - i) + 1) =~= v@.skip(k + 1));
            out.push(line);
            assert(views(out@) =~= before.push(line@));
            assert(views(out@) + lines(v@.skip(k + 1)) =~= before + (seq![line@] + lines(
                v@.skip(k + 1),
            )));
            i = k + 1;
        }
    }
    assert(lines(v@.skip(i as int)) =~= seq![]);
    assert(views(out@) + seq![] =~= views(out@));
    out
}

/// Length of `v` without its trailing run of `c`.
pub fn trim_end_len(v: &[char], c: char) -> (k: usize)
    ensures
        k == v@.len() - trailing_run(v@, c),
        k <= v@.len(),
{
    let mut k = v.len();
    assert(v@.take(k as int) =~= v@);
    while k > 0 && v[k - 1] == c
        invariant
            k <= v.len(),
            trailing_run(v@, c) == (v.len() - k) + trailing_run(v@.take(k as int), c),
        decreases k,
    {
        assert(v@.take(k as int).drop_last() =~= v@.take(k - 1));
        k = k - 1;
    }
    proof {
        if k > 0 {
            assert(v@.take(k as int).last() == v@[k - 1]);
        }
        assert(trailing_run(v@.take(k as int), c) == 0);
    }
    k
}

pub proof fn lemma_arrow_pos(s: Seq<char>)
    ensures
        arrow_pos(s) <= s.len(),
        arrow_pos(s) < s.len() ==> arrow_pos(s) + 1 < s.len() && s[arrow_pos(s) as int] == '-'
            && s[arrow_pos(s) + 1int] == '>',
    decreases s.len(),
{
    if s.len() >= 2 && !(s[0] == '-' && s[1] == '>') {
        lemma_arrow_pos(s.drop_first());
    }
}

/// Position of the first `"->"` in `v`, or its length.
pub fn arrow_index(v: &[char]) -> (k: usize)
    ensures
        k == arrow_pos(v@),
{
    let mut k: usize = 0;
    assert(v@.skip(0) =~= v@);
    while k < v.len() && k + 1 < v.len() && !(v[k] == '-' && v[k + 1] == '>')
        invariant
            k <= v.len(),
            arrow_pos(v@) == k + arrow_pos(v@.skip(k as int)),
        decreases v.len() - k,
    {
        assert(v@.skip(k as int).drop_first() =~= v@.skip(k + 1));
        k = k + 1;
    }
    if k < v.len() && k + 1 < v.len() {
        k
    } else {
        v.len()
    }
}

/// The first whitespace-separated token of `v`.
pub fn first_token_of(v: &[char]) -> (r: Option<Vec<char>>)
    ensures
        match r {
            Some(t) => first_token(v@) == Some(t@),
            None => first_token(v@) is None,
        },
{
    let mut toks = split_whitespace(v);
    if toks.len() == 0 {
        None
    } else {
        let t = toks.swap_remove(0);
        Some(t)
    }
}

/// Whether `v` holds exactly the characters of `lit`.
pub fn eq_lit(v: &[char], lit: &str) -> (b: bool)
    ensures
        b == (v@ == lit@),
{
    let l = to_chars(lit);
    if v.len() != l.len() {
        return false;
    }
    let mut i: usize = 0;
    while i < v.len()
        invariant
            i <= v.len(),
            v.len() == l.len(),
            l@ == lit@,
            forall|j: int| 0 <= j < i ==> v@[j] == l@[j],
        decreases v.len() - i,
    {
        if v[i] != l[i] {
            return false;
        }
        i = i + 1;
    }
    assert(v@ =~= l@);
    true
}

/// The tokens `f[from..]` joined by `sep`.
pub fn join_from(f: &Vec<Vec<char>>, from: usize, sep: char) -> (out: Vec<char>)
    requires
        from <= f@.len(),
    ensures
        out@ == join(views(f@).skip(from as int), seq![sep]),
{
    let mut out: Vec<char> = Vec::new();
    let mut i = from;
    assert(views(f@).subrange(from as int, from as int) =~= Seq::<Seq<char>>::empty());
    while i < f.len()
        invariant
            from <= i <= f@.len(),
            out@ == join(views(f@).subrange(from as int, i as int), seq![sep]),
        decreases f.len() - i,
    {
        let ghost before = out@;
        if i > from {
            out.push(sep);
        }
        let t = &f[i];
        let mut j: usize = 0;
        let ghost mid = out@;
        while j < t.len()
            invariant
                j <= t@.len(),
                out@ == mid + t@.take(j as int),
            decreases t.len() - j,
        {
            out.push(t[j]);
            assert(t@.take(j + 1) =~= t@.take(j as int).push(t@[j as int]));
            j = j + 1;
        }
        proof {
            let parts = views(f@).subrange(from as int, i + 1);
            assert(t@.take(t@.len() as int) =~= t@);
            assert(parts.drop_last() =~= views(f@).subrange(from as int, i as int));
            assert(parts.last() == t@);
            if i == from {
                assert(parts.len() == 1);
                assert(out@ =~= t@);
            } else {
                assert(out@ =~= before + seq![sep] + t@);
            }
        }
        i = i + 1;
    }
    assert(views(f@).subrange(from as int, f@.len() as int) =~= views(f@).skip(from as int));
    out
}

pub proof fn lemma_leading_ws(s: Seq<char>)
    ensures
        leading_ws(s) <= s.len(),
    decreases s.len(),
{
    if s.len() > 0 && is_ws(s[0]) {
        lemma_leading_ws(s.drop_first());
    }
}

pub proof fn lemma_trailing_ws(s: Seq<char>)
    ensures
        trailing_ws(s) <= s.len(),
    decreases s.len(),
{
    if s.len() > 0 && is_ws(s.last()) {
        lemma_trailing_ws(s.drop_last());
    }
}

/// `str::trim`, as characters.
pub fn trim_chars(v: &[char]) -> (out: Vec<char>)
    ensures
        out@ == trim(v@),
{
    let mut a: usize = 0;
    assert(v@.skip(0) =~= v@);
    while a < v.len() && is_whitespace(v[a])
        invariant
            a <= v.len(),
            leading_ws(v@) == a + leading_ws(v@.skip(a as int)),
        decreases v.len() - a,
    {
        assert(v@.skip(a as int).drop_first() =~= v@.skip(a + 1));
        a = a + 1;
    }
    assert(leading_ws(v@.skip(a as int)) == 0);
    let ghost t = v@.skip(a as int);
    let mut b = v.len();
    assert(v@.subrange(a as int, b as int) =~= t);
    while b > a && is_whitespace(v[b - 1])
        invariant
            a <= b <= v.len(),
            t == v@.skip(a as int),
            trailing_ws(t) == (v.len() - b) + trailing_ws(v@.subrange(a as int, b as int)),
        decreases b,
    {
        assert(v@.subrange(a as int, b as int).drop_last() =~= v@.subrange(a as int, b - 1));
        b = b - 1;
    }
    proof {
        if b > a {
            assert(v@.subrange(a as int, b as int).last() == v@[b - 1]);
        }
        assert(trailing_ws(v@.subrange(a as int, b as int)) == 0);
        assert(v@.subrange(a as int, b as int) =~= t.take(t.len() - trailing_ws(t)));
    }
    copy_range(v, a, b)
}

} // verus!
