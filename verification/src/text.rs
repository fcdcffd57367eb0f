//! Character-sequence operations on which template rendering is built:
//! substring search, non-overlapping replacement, space squeezing,
//! line trimming and joining.
use vstd::prelude::*;

verus! {

// ---------------------------------------------------------------------
// Specifications
// ---------------------------------------------------------------------

/// `p` occurs in `s` starting at index `i`.
pub open spec fn occurs_at(s: Seq<char>, p: Seq<char>, i: int) -> bool {
    0 <= i && i + p.len() <= s.len() && s.subrange(i, i + p.len()) == p
}

/// `p` occurs somewhere in `s`.
pub open spec fn contains_seq(s: Seq<char>, p: Seq<char>) -> bool {
    exists|i: int| occurs_at(s, p, i)
}

/// Replaces, scanning from the left, every non-overlapping occurrence of the
/// nonempty pattern `p` in `s` by `r`; replaced text is not scanned again.
pub open spec fn replace_all(s: Seq<char>, p: Seq<char>, r: Seq<char>) -> Seq<char>
    decreases s.len(),
{
    if p.len() == 0 || s.len() < p.len() {
        s
    } else if s.take(p.len() as int) == p {
        r + replace_all(s.skip(p.len() as int), p, r)
    } else {
        seq![s[0]] + replace_all(s.skip(1), p, r)
    }
}


/// `s` with every run of two or more spaces shortened to a single space.
pub open spec fn squeeze_spaces(s: Seq<char>) -> Seq<char>
    decreases s.len(),
{
    if s.len() < 2 {
        s
    } else if s[0] == ' ' && s[1] == ' ' {
        squeeze_spaces(s.drop_first())
    } else {
        seq![s[0]] + squeeze_spaces(s.drop_first())
    }
}

/// Two spaces.
pub open spec fn double_space() -> Seq<char> {
    seq![' ', ' ']
}

/// One space.
pub open spec fn single_space() -> Seq<char> {
    seq![' ']
}

/// The characters that Unicode gives the White_Space property, which is the
/// set `char::is_whitespace` documents.
pub open spec fn is_white_space(c: char) -> bool {
    let u = c as u32;
    ||| 0x09 <= u <= 0x0d
    ||| u == 0x20
    ||| u == 0x85
    ||| u == 0xa0
    ||| u == 0x1680
    ||| 0x2000 <= u <= 0x200a
    ||| u == 0x2028
    ||| u == 0x2029
    ||| u == 0x202f
    ||| u == 0x205f
    ||| u == 0x3000
}

/// `l` without its trailing white space.
pub open spec fn trim_end(l: Seq<char>) -> Seq<char>
    decreases l.len(),
{
    if l.len() > 0 && is_white_space(l.last()) {
        trim_end(l.drop_last())
    } else {
        l
    }
}

/// The pieces of `s` between the occurrences of `sep` (one more piece than
/// there are separators).
pub open spec fn split_on(s: Seq<char>, sep: char) -> Seq<Seq<char>>
    decreases s.len(),
{
    if s.len() == 0 {
        seq![Seq::<char>::empty()]
    } else if s.last() == sep {
        split_on(s.drop_last(), sep).push(Seq::<char>::empty())
    } else {
        let p = split_on(s.drop_last(), sep);
        p.update(p.len() - 1, p.last().push(s.last()))
    }
}

/// The lines of `s`: the pieces between line feeds, where a final line feed
/// ends the last line rather than starting an empty one.
pub open spec fn lines_of(s: Seq<char>) -> Seq<Seq<char>> {
    if s.len() == 0 {
        Seq::empty()
    } else if s.last() == '\n' {
        split_on(s.drop_last(), '\n')
    } else {
        split_on(s, '\n')
    }
}

/// The items joined with `sep` between each two neighbours.
pub open spec fn join_with(items: Seq<Seq<char>>, sep: Seq<char>) -> Seq<char>
    decreases items.len(),
{
    if items.len() == 0 {
        Seq::empty()
    } else if items.len() == 1 {
        items[0]
    } else {
        join_with(items.drop_last(), sep) + sep + items.last()
    }
}

/// Each line of `s` with its trailing white space removed, the lines joined
/// with line feeds.
pub open spec fn trim_line_ends(s: Seq<char>) -> Seq<char> {
    join_with(lines_of(s).map_values(|l: Seq<char>| trim_end(l)), seq!['\n'])
}

/// The character sequences held by a sequence of vectors.
pub open spec fn views_of(v: Seq<Vec<char>>) -> Seq<Seq<char>> {
    v.map_values(|x: Vec<char>| x@)
}

// ---------------------------------------------------------------------
// Conversions between strings and character vectors
// ---------------------------------------------------------------------

/// Calls `String::push`, trusted to append `c` to `s` as its documentation
/// says.
#[verifier::external_body]
fn push_char(s: &mut String, c: char)
    ensures
        final(s)@ == old(s)@.push(c),
{
    s.push(c);
}

/// The characters of a string slice, in order.
pub fn chars_of(s: &str) -> (v: Vec<char>)
    ensures
        v@ == s@,
{
    let mut v: Vec<char> = Vec::new();
    for c in it: s.chars()
        invariant
            v@ == it.seq().take(it.index() as int),
            it.seq() == s@,
    {
        v.push(c);
    }
    v
}

/// The string whose characters are those of `v`.
pub fn string_of(v: &Vec<char>) -> (s: String)
    ensures
        s@ == v@,
{
    let mut s = String::new();
    let mut i: usize = 0;
    while i < v.len()
        invariant
            i <= v.len(),
            s@ == v@.take(i as int),
        decreases v.len() - i,
    {
        push_char(&mut s, v[i]);
        i = i + 1;
        assert(v@.take(i as int) == v@.take(i - 1).push(v@[i - 1]));
    }
    assert(v@.take(v.len() as int) == v@);
    s
}

// ---------------------------------------------------------------------
// Search and replacement
// ---------------------------------------------------------------------

/// Whether `p` occurs in `s` at index `i`.
fn matches_at(s: &Vec<char>, p: &Vec<char>, i: usize) -> (b: bool)
    requires
        i + p.len() <= s.len(),
    ensures
        b == (s@.subrange(i as int, i + p.len()) == p@),
{
    let mut j: usize = 0;
    while j < p.len()
        invariant
            j <= p.len(),
            i + p.len() <= s.len(),
            forall|k: int| 0 <= k < j ==> s@[i + k] == p@[k],
        decreases p.len() - j,
    {
        if s[i + j] != p[j] {
            assert(s@.subrange(i as int, i + p.len())[j as int] != p@[j as int]);
            return false;
        }
        j = j + 1;
    }
    assert(s@.subrange(i as int, i + p.len()) =~= p@);
    true
}

/// Whether `p` occurs anywhere in `s`.
pub fn contains(s: &Vec<char>, p: &Vec<char>) -> (b: bool)
    ensures
        b == contains_seq(s@, p@),
{
    if p.len() > s.len() {
        return false;
    }
    let last = s.len() - p.len();
    let mut i: usize = 0;
    loop
        invariant
            last == s.len() - p.len(),
            i <= last,
            forall|k: int| 0 <= k < i ==> !occurs_at(s@, p@, k),
        ensures
            forall|k: int| 0 <= k <= last ==> !occurs_at(s@, p@, k),
        decreases last - i,
    {
        if matches_at(s, p, i) {
            assert(occurs_at(s@, p@, i as int));
            return true;
        }
        if i == last {
            break;
        }
        i = i + 1;
    }
    assert forall|k: int| !occurs_at(s@, p@, k) by {
        if 0 <= k <= last {
        }
    }
    false
}

proof fn lemma_skip_skip(s: Seq<char>, a: int, b: int)
    requires
        0 <= a,
        0 <= b,
        a + b <= s.len(),
    ensures
        s.skip(a).skip(b) == s.skip(a + b),
{
    assert(s.skip(a).skip(b) =~= s.skip(a + b));
}

/// Replaces every non-overlapping occurrence of the nonempty `p` in `s` by `r`.
pub fn replace(s: &Vec<char>, p: &Vec<char>, r: &Vec<char>) -> (out: Vec<char>)
    requires
        p.len() > 0,
    ensures
        out@ == replace_all(s@, p@, r@),
{
    let mut out: Vec<char> = Vec::new();
    let mut i: usize = 0;
    assert(s@.skip(0) == s@);
    while i < s.len()
        invariant
            p.len() > 0,
            i <= s.len(),
            out@ + replace_all(s@.skip(i as int), p@, r@) == replace_all(s@, p@, r@),
        decreases s.len() - i,
    {
        let ghost rest = s@.skip(i as int);
        if s.len() - i < p.len() {
            proof {
                assert(replace_all(rest, p@, r@) == rest);
            }
            while i < s.len()
                invariant
                    i <= s.len(),
                    out@ + s@.skip(i as int) == replace_all(s@, p@, r@),
                decreases s.len() - i,
            {
                let ghost before = out@;
                out.push(s[i]);
                proof {
                    assert(s@.skip(i as int) == seq![s@[i as int]] + s@.skip(i + 1));
                    assert(out@ + s@.skip(i + 1) == before + s@.skip(i as int));
                }
                i = i + 1;
            }
            assert(s@.skip(s.len() as int) =~= Seq::<char>::empty());
            assert(out@ == replace_all(s@, p@, r@));
            return out;
        }
        if matches_at(s, p, i) {
            let ghost before = out@;
            assert(rest.take(p.len() as int) == s@.subrange(i as int, i + p.len()));
            assert(replace_all(rest, p@, r@) == r@ + replace_all(rest.skip(p.len() as int), p@, r@));
            proof {
                lemma_skip_skip(s@, i as int, p.len() as int);
            }
            let mut k: usize = 0;
            while k < r.len()
                invariant
                    k <= r.len(),
                    out@ == before + r@.take(k as int),
                decreases r.len() - k,
            {
                out.push(r[k]);
                k = k + 1;
                assert(r@.take(k as int) == r@.take(k - 1).push(r@[k - 1]));
            }
            assert(r@.take(r.len() as int) == r@);
            assert((before + r@) + replace_all(s@.skip(i + p.len()), p@, r@) == before + (r@
                + replace_all(s@.skip(i + p.len()), p@, r@)));
            i = i + p.len();
        } else {
            let ghost before = out@;
            assert(rest.take(p.len() as int) == s@.subrange(i as int, i + p.len()));
            assert(rest[0] == s@[i as int]);
            assert(replace_all(rest, p@, r@) == seq![s@[i as int]] + replace_all(rest.skip(1), p@, r@));
            proof {
                lemma_skip_skip(s@, i as int, 1);
            }
            out.push(s[i]);
            assert(before.push(s@[i as int]) + replace_all(s@.skip(i + 1), p@, r@) == before + (seq![s@[i as int]]
                + replace_all(s@.skip(i + 1), p@, r@)));
            i = i + 1;
        }
    }
    assert(s@.skip(s.len() as int) =~= Seq::<char>::empty());
    assert(out@ + Seq::<char>::empty() == out@);
    out
}


// ---------------------------------------------------------------------
// Space squeezing
// ---------------------------------------------------------------------

proof fn lemma_squeeze_cons(c: char, x: Seq<char>)
    ensures
        squeeze_spaces(seq![c] + x) == if c == ' ' && x.len() > 0 && x[0] == ' ' {
            squeeze_spaces(x)
        } else {
            seq![c] + squeeze_spaces(x)
        },
{
    let s = seq![c] + x;
    if x.len() == 0 {
        assert(s =~= seq![c]);
        assert(seq![c] + squeeze_spaces(x) =~= seq![c]);
    } else {
        assert(s.drop_first() =~= x);
        assert(s[1] == x[0]);
    }
}

proof fn lemma_squeeze_first(x: Seq<char>)
    ensures
        x.len() == 0 ==> squeeze_spaces(x) == x,
        x.len() > 0 ==> squeeze_spaces(x).len() > 0 && squeeze_spaces(x)[0] == x[0],
    decreases x.len(),
{
    if x.len() >= 2 && x[0] == ' ' && x[1] == ' ' {
        lemma_squeeze_first(x.drop_first());
    }
}

proof fn lemma_replace_first(x: Seq<char>)
    ensures
        x.len() == 0 ==> replace_all(x, double_space(), single_space()) == x,
        x.len() > 0 ==> replace_all(x, double_space(), single_space()).len() > 0
            && replace_all(x, double_space(), single_space())[0] == x[0],
{
    let p = double_space();
    let r = single_space();
    if x.len() >= 2 {
        if x.take(2) == p {
            assert(x[0] == x.take(2)[0]);
        } else {
        }
    }
}

proof fn lemma_replace_keeps_squeeze(s: Seq<char>)
    ensures
        squeeze_spaces(replace_all(s, double_space(), single_space())) == squeeze_spaces(s),
    decreases s.len(),
{
    let p = double_space();
    let r = single_space();
    if s.len() < 2 {
    } else if s.take(2) == p {
        let y = s.skip(2);
        assert(s[0] == s.take(2)[0] && s[1] == s.take(2)[1]);
        lemma_replace_keeps_squeeze(y);
        lemma_replace_first(y);
        lemma_squeeze_cons(' ', replace_all(y, p, r));
        lemma_squeeze_cons(' ', y);
        assert(s.drop_first() =~= seq![' '] + y);
        assert(replace_all(s, p, r) == r + replace_all(y, p, r));
    } else {
        let y = s.skip(1);
        assert(!(s[0] == ' ' && s[1] == ' ')) by {
            if s[0] == ' ' && s[1] == ' ' {
                assert(s.take(2) =~= p);
            }
        }
        lemma_replace_keeps_squeeze(y);
        lemma_replace_first(y);
        lemma_squeeze_cons(s[0], replace_all(y, p, r));
        assert(s.drop_first() == y);
    }
}

proof fn lemma_occurs_shift(s: Seq<char>, p: Seq<char>, k: int)
    requires
        k >= 1,
        occurs_at(s, p, k),
    ensures
        occurs_at(s.skip(1), p, k - 1),
{
    assert(s.skip(1).subrange(k - 1, k - 1 + p.len()) =~= s.subrange(k, k + p.len()));
}

proof fn lemma_occurs_unshift(s: Seq<char>, p: Seq<char>, k: int)
    requires
        s.len() > 0,
        occurs_at(s.skip(1), p, k),
    ensures
        occurs_at(s, p, k + 1),
{
    assert(s.skip(1).subrange(k, k + p.len()) =~= s.subrange(k + 1, k + 1 + p.len()));
}

/// Where the pattern does not occur, replacing changes nothing.
pub proof fn lemma_replace_absent(s: Seq<char>, p: Seq<char>, r: Seq<char>)
    requires
        !contains_seq(s, p),
    ensures
        replace_all(s, p, r) == s,
    decreases s.len(),
{
    if p.len() > 0 && s.len() >= p.len() {
        assert(!occurs_at(s, p, 0));
        assert(s.take(p.len() as int) =~= s.subrange(0, p.len() as int));
        assert forall|k: int| !occurs_at(s.skip(1), p, k) by {
            if occurs_at(s.skip(1), p, k) {
                lemma_occurs_unshift(s, p, k);
            }
        }
        lemma_replace_absent(s.skip(1), p, r);
        assert(s =~= seq![s[0]] + s.skip(1));
    }
}

/// Scanning from the left, the first occurrence of the pattern is replaced
/// and the scan goes on after it: where `p` occurs in `x + p + y` first at
/// the end of `x`, replacing gives `x`, then `r`, then `y` with its
/// occurrences replaced.
pub proof fn lemma_replace_first_occurrence(x: Seq<char>, p: Seq<char>, y: Seq<char>, r: Seq<char>)
    requires
        p.len() > 0,
        forall|i: int| 0 <= i < x.len() ==> !occurs_at(x + p + y, p, i),
    ensures
        replace_all(x + p + y, p, r) == x + r + replace_all(y, p, r),
    decreases x.len(),
{
    let s = x + p + y;
    if x.len() == 0 {
        assert(s =~= p + y);
        assert(s.take(p.len() as int) =~= p);
        assert(s.skip(p.len() as int) =~= y);
        assert(x + r + replace_all(y, p, r) =~= r + replace_all(y, p, r));
    } else {
        assert(!occurs_at(s, p, 0));
        assert(s.take(p.len() as int) =~= s.subrange(0, p.len() as int));
        let x1 = x.skip(1);
        assert(s.skip(1) =~= x1 + p + y);
        assert forall|i: int| 0 <= i < x1.len() implies !occurs_at(x1 + p + y, p, i) by {
            if occurs_at(x1 + p + y, p, i) {
                lemma_occurs_unshift(s, p, i);
            }
        }
        lemma_replace_first_occurrence(x1, p, y, r);
        assert(x =~= seq![x[0]] + x1);
        assert(s[0] == x[0]);
        assert(x + r + replace_all(y, p, r) =~= seq![x[0]] + (x1 + r + replace_all(y, p, r)));
    }
}

proof fn lemma_replace_shrinks(s: Seq<char>)
    ensures
        replace_all(s, double_space(), single_space()).len() <= s.len(),
        contains_seq(s, double_space()) ==> replace_all(s, double_space(), single_space()).len()
            < s.len(),
    decreases s.len(),
{
    let p = double_space();
    let r = single_space();
    if s.len() < 2 {
        if contains_seq(s, p) {
            let k = choose|k: int| occurs_at(s, p, k);
        }
    } else if s.take(2) == p {
        lemma_replace_shrinks(s.skip(2));
    } else {
        lemma_replace_shrinks(s.skip(1));
        if contains_seq(s, p) {
            let k = choose|k: int| occurs_at(s, p, k);
            if k == 0 {
                assert(s.subrange(0, 2) == s.take(2));
            } else {
                lemma_occurs_shift(s, p, k);
            }
        }
    }
}

/// Text with no two neighbouring spaces is left as it is by squeezing.
pub proof fn lemma_squeeze_fixed(s: Seq<char>)
    requires
        !contains_seq(s, double_space()),
    ensures
        squeeze_spaces(s) == s,
    decreases s.len(),
{
    let p = double_space();
    if s.len() >= 2 {
        if s[0] == ' ' && s[1] == ' ' {
            assert(s.subrange(0, 2) =~= p);
            assert(occurs_at(s, p, 0));
        }
        assert forall|k: int| !occurs_at(s.drop_first(), p, k) by {
            if occurs_at(s.drop_first(), p, k) {
                lemma_occurs_unshift(s, p, k);
            }
        }
        lemma_squeeze_fixed(s.drop_first());
        assert(s =~= seq![s[0]] + s.drop_first());
    }
}

/// Squeezing leaves no two neighbouring spaces.
pub proof fn lemma_squeeze_has_no_double_space(s: Seq<char>)
    ensures
        !contains_seq(squeeze_spaces(s), double_space()),
    decreases s.len(),
{
    let p = double_space();
    if s.len() < 2 {
        if contains_seq(s, p) {
            let k = choose|k: int| occurs_at(s, p, k);
        }
    } else if s[0] == ' ' && s[1] == ' ' {
        lemma_squeeze_has_no_double_space(s.drop_first());
    } else {
        let rest = s.drop_first();
        lemma_squeeze_has_no_double_space(rest);
        lemma_squeeze_first(rest);
        let q = squeeze_spaces(rest);
        let t = seq![s[0]] + q;
        assert(squeeze_spaces(s) == t);
        if contains_seq(t, p) {
            let k = choose|k: int| occurs_at(t, p, k);
            if k == 0 {
                assert(t[0] == t.subrange(0, 2)[0] && t[1] == t.subrange(0, 2)[1]);
                assert(t[1] == q[0]);
            } else {
                lemma_occurs_shift(t, p, k);
                assert(t.skip(1) =~= q);
            }
        }
    }
}

/// Shortening two neighbouring spaces to one does not change what squeezing
/// gives.
pub proof fn lemma_squeeze_shortens_double_space(x: Seq<char>, y: Seq<char>)
    ensures
        squeeze_spaces(x + double_space() + y) == squeeze_spaces(x + single_space() + y),
    decreases x.len(),
{
    let s = x + double_space() + y;
    let t = x + single_space() + y;
    if x.len() == 0 {
        assert(s.drop_first() =~= t);
    } else {
        lemma_squeeze_shortens_double_space(x.drop_first(), y);
        assert(s.drop_first() =~= x.drop_first() + double_space() + y);
        assert(t.drop_first() =~= x.drop_first() + single_space() + y);
        assert(s[0] == t[0]);
        assert(s[1] == t[1]);
    }
}

/// Squeezing twice is squeezing once.
pub proof fn lemma_squeeze_idempotent(s: Seq<char>)
    ensures
        squeeze_spaces(squeeze_spaces(s)) == squeeze_spaces(s),
{
    lemma_squeeze_has_no_double_space(s);
    lemma_squeeze_fixed(squeeze_spaces(s));
}

/// Replaces two spaces by one, again and again, until no two spaces stand
/// side by side.
pub fn collapse_spaces(s: Vec<char>) -> (out: Vec<char>)
    ensures
        out@ == squeeze_spaces(s@),
        !contains_seq(out@, double_space()),
{
    let two: Vec<char> = vec![' ', ' '];
    let one: Vec<char> = vec![' '];
    assert(two@ =~= double_space());
    assert(one@ =~= single_space());
    let mut r = s;
    while contains(&r, &two)
        invariant
            two@ == double_space(),
            one@ == single_space(),
            squeeze_spaces(r@) == squeeze_spaces(s@),
        decreases r@.len(),
    {
        proof {
            lemma_replace_shrinks(r@);
            lemma_replace_keeps_squeeze(r@);
        }
        r = replace(&r, &two, &one);
    }
    proof {
        lemma_squeeze_fixed(r@);
    }
    r
}


// ---------------------------------------------------------------------
// Lines
// ---------------------------------------------------------------------

/// Whether `c` is white space in the sense of `is_white_space`.
pub fn is_white_space_char(c: char) -> (b: bool)
    ensures
        b == is_white_space(c),
{
    let u = c as u32;
    (0x09 <= u && u <= 0x0d) || u == 0x20 || u == 0x85 || u == 0xa0 || u == 0x1680 || (0x2000
        <= u && u <= 0x200a) || u == 0x2028 || u == 0x2029 || u == 0x202f || u == 0x205f || u
        == 0x3000
}

/// `l` without its trailing white space.
pub fn trim_end_chars(l: &Vec<char>) -> (out: Vec<char>)
    ensures
        out@ == trim_end(l@),
{
    let mut k: usize = l.len();
    assert(l@.take(k as int) == l@);
    while k > 0 && is_white_space_char(l[k - 1])
        invariant
            k <= l.len(),
            trim_end(l@.take(k as int)) == trim_end(l@),
        decreases k,
    {
        assert(l@.take(k as int).drop_last() == l@.take(k - 1));
        k = k - 1;
    }
    let mut out: Vec<char> = Vec::new();
    let mut i: usize = 0;
    while i < k
        invariant
            i <= k <= l.len(),
            out@ == l@.take(i as int),
        decreases k - i,
    {
        out.push(l[i]);
        i = i + 1;
        assert(l@.take(i as int) == l@.take(i - 1).push(l@[i - 1]));
    }
    out
}

/// The pieces of the first `n` characters of `s` between occurrences of `sep`.
fn split_prefix(s: &Vec<char>, n: usize, sep: char) -> (out: Vec<Vec<char>>)
    requires
        n <= s.len(),
    ensures
        views_of(out@) == split_on(s@.take(n as int), sep),
{
    let mut done: Vec<Vec<char>> = Vec::new();
    let mut cur: Vec<char> = Vec::new();
    let mut i: usize = 0;
    assert(s@.take(0) =~= Seq::<char>::empty());
    assert(views_of(done@).push(cur@) =~= seq![Seq::<char>::empty()]);
    while i < n
        invariant
            i <= n <= s.len(),
            views_of(done@).push(cur@) == split_on(s@.take(i as int), sep),
        decreases n - i,
    {
        let c = s[i];
        let ghost prev = s@.take(i as int);
        assert(s@.take(i + 1).drop_last() == prev);
        assert(s@.take(i + 1).last() == c);
        if c == sep {
            let finished = cur;
            done.push(finished);
            cur = Vec::new();
            assert(views_of(done@) =~= views_of(done@.drop_last()).push(finished@));
            assert(views_of(done@).push(cur@) =~= split_on(prev, sep).push(Seq::<char>::empty()));
        } else {
            let ghost old_done = views_of(done@);
            let ghost old_cur = cur@;
            cur.push(c);
            let ghost q = split_on(prev, sep);
            assert(q == old_done.push(old_cur));
            assert(views_of(done@).push(cur@) =~= q.update(q.len() - 1, q.last().push(c)));
        }
        i = i + 1;
    }
    assert(views_of(done@).push(cur@) == views_of(done@.push(cur))) by {
        assert(views_of(done@.push(cur)) =~= views_of(done@).push(cur@));
    }
    done.push(cur);
    done
}

/// The lines of `s`, as `lines_of` describes them.
pub fn lines(s: &Vec<char>) -> (out: Vec<Vec<char>>)
    ensures
        views_of(out@) == lines_of(s@),
{
    if s.len() == 0 {
        let out: Vec<Vec<char>> = Vec::new();
        assert(views_of(out@) =~= Seq::<Seq<char>>::empty());
        return out;
    }
    if s[s.len() - 1] == '\n' {
        assert(s@.take(s.len() - 1) == s@.drop_last());
        split_prefix(s, s.len() - 1, '\n')
    } else {
        assert(s@.take(s.len() as int) == s@);
        split_prefix(s, s.len(), '\n')
    }
}

/// The items joined with `sep` between each two neighbours.
pub fn join(items: &Vec<Vec<char>>, sep: &Vec<char>) -> (out: Vec<char>)
    ensures
        out@ == join_with(views_of(items@), sep@),
{
    let mut out: Vec<char> = Vec::new();
    let mut i: usize = 0;
    assert(views_of(items@).take(0) =~= Seq::<Seq<char>>::empty());
    while i < items.len()
        invariant
            i <= items.len(),
            out@ == join_with(views_of(items@).take(i as int), sep@),
        decreases items.len() - i,
    {
        let ghost before = out@;
        let ghost vs = views_of(items@);
        if i != 0 {
            append_chars(&mut out, sep);
        }
        append_chars(&mut out, &items[i]);
        assert(vs.take(i + 1).drop_last() =~= vs.take(i as int));
        assert(vs.take(i + 1).last() == items@[i as int]@);
        if i == 0 {
            assert(vs.take(1).len() == 1);
            assert(out@ =~= vs.take(1)[0]);
        } else {
            assert(out@ =~= before + sep@ + items@[i as int]@);
        }
        i = i + 1;
    }
    assert(views_of(items@).take(items.len() as int) =~= views_of(items@));
    out
}

/// Appends the characters of `extra` to `out`.
pub fn append_chars(out: &mut Vec<char>, extra: &Vec<char>)
    ensures
        final(out)@ == old(out)@ + extra@,
{
    let mut k: usize = 0;
    while k < extra.len()
        invariant
            k <= extra.len(),
            out@ == old(out)@ + extra@.take(k as int),
        decreases extra.len() - k,
    {
        out.push(extra[k]);
        k = k + 1;
        assert(extra@.take(k as int) == extra@.take(k - 1).push(extra@[k - 1]));
    }
    assert(extra@.take(extra.len() as int) == extra@);
}

/// Each line of `s` with its trailing white space removed, the lines joined
/// with line feeds.
pub fn trim_lines(s: &Vec<char>) -> (out: Vec<char>)
    ensures
        out@ == trim_line_ends(s@),
{
    let ls = lines(s);
    let mut trimmed: Vec<Vec<char>> = Vec::new();
    let mut i: usize = 0;
    while i < ls.len()
        invariant
            i <= ls.len(),
            views_of(trimmed@) == views_of(ls@).take(i as int).map_values(|l: Seq<char>| trim_end(l)),
        decreases ls.len() - i,
    {
        let t = trim_end_chars(&ls[i]);
        let ghost before = views_of(trimmed@);
        trimmed.push(t);
        assert(views_of(trimmed@) =~= before.push(t@));
        assert(views_of(ls@).take(i + 1).map_values(|l: Seq<char>| trim_end(l)) =~= views_of(ls@).take(
            i as int,
        ).map_values(|l: Seq<char>| trim_end(l)).push(trim_end(ls@[i as int]@)));
        i = i + 1;
    }
    assert(views_of(ls@).take(ls.len() as int) =~= views_of(ls@));
    let nl: Vec<char> = vec!['\n'];
    assert(nl@ =~= seq!['\n']);
    join(&trimmed, &nl)
}


// ---------------------------------------------------------------------
// Properties of trimmed, joined lines
// ---------------------------------------------------------------------

/// No white space other than a line feed stands at the end of `s` or just
/// before a line feed: no line of `s` ends in white space.
pub open spec fn lines_end_cleanly(s: Seq<char>) -> bool {
    forall|k: int|
        0 <= k < s.len() && is_white_space(#[trigger] s[k]) && s[k] != '\n' ==> k + 1 < s.len()
            && s[k + 1] != '\n'
}

/// `c` does not occur in `s`.
pub open spec fn free_of(s: Seq<char>, c: char) -> bool {
    forall|k: int| 0 <= k < s.len() ==> #[trigger] s[k] != c
}

proof fn lemma_no_double_space_prefix(s: Seq<char>, n: int)
    requires
        0 <= n <= s.len(),
        !contains_seq(s, double_space()),
    ensures
        !contains_seq(s.take(n), double_space()),
{
    let p = double_space();
    if contains_seq(s.take(n), p) {
        let k = choose|k: int| occurs_at(s.take(n), p, k);
        assert(s.take(n).subrange(k, k + 2) =~= s.subrange(k, k + 2));
        assert(occurs_at(s, p, k));
    }
}

proof fn lemma_no_double_space_concat(x: Seq<char>, z: Seq<char>)
    requires
        !contains_seq(x, double_space()),
        !contains_seq(z, double_space()),
        !(x.len() > 0 && z.len() > 0 && x.last() == ' ' && z[0] == ' '),
    ensures
        !contains_seq(x + z, double_space()),
{
    let p = double_space();
    let s = x + z;
    if contains_seq(s, p) {
        let k = choose|k: int| occurs_at(s, p, k);
        assert(s[k] == s.subrange(k, k + 2)[0] && s[k + 1] == s.subrange(k, k + 2)[1]);
        if k + 2 <= x.len() {
            assert(x.subrange(k, k + 2) =~= s.subrange(k, k + 2));
            assert(occurs_at(x, p, k));
        } else if k >= x.len() {
            assert(z.subrange(k - x.len(), k - x.len() + 2) =~= s.subrange(k, k + 2));
            assert(occurs_at(z, p, k - x.len()));
        } else {
            assert(k == x.len() - 1);
            assert(s[k] == x.last());
            assert(s[k + 1] == z[0]);
        }
    }
}

proof fn lemma_split_pieces(s: Seq<char>, sep: char)
    ensures
        split_on(s, sep).len() >= 1,
        forall|i: int| 0 <= i < split_on(s, sep).len() ==> free_of(#[trigger] split_on(s, sep)[i], sep),
        split_on(s, sep).last().len() > 0 ==> s.len() > 0 && split_on(s, sep).last().last() == s.last(),
        !contains_seq(s, double_space()) ==> forall|i: int|
            0 <= i < split_on(s, sep).len() ==> !contains_seq(#[trigger] split_on(s, sep)[i], double_space()),
    decreases s.len(),
{
    let dd = double_space();
    if s.len() == 0 {
        let p = split_on(s, sep);
        assert(p[0] =~= Seq::<char>::empty());
        if contains_seq(p[0], dd) {
            let k = choose|k: int| occurs_at(p[0], dd, k);
        }
    } else {
        let d = s.drop_last();
        lemma_split_pieces(d, sep);
        if !contains_seq(s, dd) {
            lemma_no_double_space_prefix(s, s.len() - 1);
            assert(s.take(s.len() - 1) == d);
        }
        let q = split_on(d, sep);
        let p = split_on(s, sep);
        let e = Seq::<char>::empty();
        if s.last() == sep {
            assert(p == q.push(e));
            assert forall|i: int| 0 <= i < p.len() implies free_of(#[trigger] p[i], sep) by {
                if i < q.len() {
                    assert(p[i] == q[i]);
                } else {
                    assert(p[i] == e);
                }
            }
            if !contains_seq(s, dd) {
                assert forall|i: int| 0 <= i < p.len() implies !contains_seq(#[trigger] p[i], dd) by {
                    if i < q.len() {
                        assert(p[i] == q[i]);
                    } else {
                        assert(p[i] == e);
                        if contains_seq(e, dd) {
                            let k = choose|k: int| occurs_at(e, dd, k);
                        }
                    }
                }
            }
        } else {
            let c = s.last();
            let old_last = q.last();
            let new_last = old_last.push(c);
            assert(p == q.update(q.len() - 1, new_last));
            assert forall|i: int| 0 <= i < p.len() implies free_of(#[trigger] p[i], sep) by {
                if i < q.len() - 1 {
                    assert(p[i] == q[i]);
                } else {
                    assert(p[i] == new_last);
                    assert(free_of(q[q.len() - 1], sep));
                    assert forall|k: int| 0 <= k < new_last.len() implies #[trigger] new_last[k] != sep by {
                        if k < old_last.len() {
                            assert(new_last[k] == old_last[k]);
                        }
                    }
                }
            }
            if !contains_seq(s, dd) {
                assert forall|i: int| 0 <= i < p.len() implies !contains_seq(#[trigger] p[i], dd) by {
                    if i < q.len() - 1 {
                        assert(p[i] == q[i]);
                    } else {
                        assert(p[i] == new_last);
                        assert(!contains_seq(q[q.len() - 1], dd));
                        if contains_seq(seq![c], dd) {
                            let k = choose|k: int| occurs_at(seq![c], dd, k);
                        }
                        if old_last.len() > 0 && old_last.last() == ' ' && c == ' ' {
                            assert(d.last() == ' ');
                            assert(s[s.len() - 2] == d.last());
                            assert(s.subrange(s.len() - 2, s.len() as int) =~= dd);
                            assert(occurs_at(s, dd, s.len() - 2));
                        }
                        lemma_no_double_space_concat(old_last, seq![c]);
                        assert(old_last + seq![c] == new_last);
                    }
                }
            }
        }
    }
}

/// Joining the pieces of `s` between occurrences of `sep`, with `sep`
/// between each two, gives `s` back.
pub proof fn lemma_join_split(s: Seq<char>, sep: char)
    ensures
        join_with(split_on(s, sep), seq![sep]) == s,
    decreases s.len(),
{
    if s.len() > 0 {
        let t = s.drop_last();
        lemma_join_split(t, sep);
        lemma_split_pieces(t, sep);
        let p = split_on(t, sep);
        if s.last() == sep {
            let q = p.push(Seq::<char>::empty());
            assert(q.drop_last() =~= p);
            assert(join_with(q, seq![sep]) =~= s);
        } else {
            let q = p.update(p.len() - 1, p.last().push(s.last()));
            if p.len() == 1 {
                assert(q[0] == p[0].push(s.last()));
                assert(join_with(q, seq![sep]) =~= s);
            } else {
                assert(q.drop_last() =~= p.drop_last());
                assert(q.last() == p.last().push(s.last()));
                assert(join_with(p, seq![sep]) == join_with(p.drop_last(), seq![sep]) + seq![sep] + p.last());
                assert(join_with(q, seq![sep]) == join_with(p.drop_last(), seq![sep]) + seq![sep] + q.last());
                assert(s =~= t.push(s.last()));
                assert(join_with(q, seq![sep]) =~= s);
            }
        }
    }
}

/// Joining the lines of `s` with line feeds gives `s` back, without its
/// final line feed where it has one.
pub proof fn lemma_join_lines_of(s: Seq<char>)
    ensures
        s.len() > 0 && s.last() == '\n' ==> join_with(lines_of(s), seq!['\n']) == s.drop_last(),
        !(s.len() > 0 && s.last() == '\n') ==> join_with(lines_of(s), seq!['\n']) == s,
{
    if s.len() > 0 {
        if s.last() == '\n' {
            lemma_join_split(s.drop_last(), '\n');
        } else {
            lemma_join_split(s, '\n');
        }
    }
}

proof fn lemma_lines_pieces(s: Seq<char>)
    ensures
        forall|i: int| 0 <= i < lines_of(s).len() ==> free_of(#[trigger] lines_of(s)[i], '\n'),
        !contains_seq(s, double_space()) ==> forall|i: int|
            0 <= i < lines_of(s).len() ==> !contains_seq(#[trigger] lines_of(s)[i], double_space()),
{
    if s.len() > 0 {
        if s.last() == '\n' {
            lemma_split_pieces(s.drop_last(), '\n');
            if !contains_seq(s, double_space()) {
                lemma_no_double_space_prefix(s, s.len() - 1);
                assert(s.take(s.len() - 1) == s.drop_last());
            }
        } else {
            lemma_split_pieces(s, '\n');
        }
    }
}

/// Trimming a line keeps a prefix of it that does not end in white space,
/// and cuts off only white space.
pub proof fn lemma_trim_end_prefix(l: Seq<char>)
    ensures
        trim_end(l).len() <= l.len(),
        trim_end(l) == l.take(trim_end(l).len() as int),
        trim_end(l).len() > 0 ==> !is_white_space(trim_end(l).last()),
        forall|k: int| trim_end(l).len() <= k < l.len() ==> is_white_space(#[trigger] l[k]),
    decreases l.len(),
{
    if l.len() > 0 && is_white_space(l.last()) {
        lemma_trim_end_prefix(l.drop_last());
        assert(l.drop_last().take(trim_end(l).len() as int) =~= l.take(trim_end(l).len() as int));
        assert forall|k: int| trim_end(l).len() <= k < l.len() implies is_white_space(#[trigger] l[k]) by {
            if k < l.len() - 1 {
                assert(l[k] == l.drop_last()[k]);
            }
        }
    } else {
        assert(l.take(l.len() as int) == l);
    }
}

proof fn lemma_join_lines(items: Seq<Seq<char>>)
    requires
        forall|i: int| 0 <= i < items.len() ==> free_of(#[trigger] items[i], '\n'),
        forall|i: int| 0 <= i < items.len() ==> (#[trigger] items[i]).len() == 0 || !is_white_space(items[i].last()),
    ensures
        lines_end_cleanly(join_with(items, seq!['\n'])),
    decreases items.len(),
{
    let nl = seq!['\n'];
    if items.len() == 1 {
        let y = items[0];
        assert(free_of(items[0], '\n'));
        assert forall|k: int|
            0 <= k < y.len() && is_white_space(#[trigger] y[k]) && y[k] != '\n' implies k + 1 < y.len()
                && y[k + 1] != '\n' by {
            if k + 1 == y.len() {
                assert(y[k] == y.last());
            }
        }
    } else if items.len() > 1 {
        let d = items.drop_last();
        assert forall|i: int| 0 <= i < d.len() implies free_of(#[trigger] d[i], '\n') by {
            assert(d[i] == items[i]);
        }
        assert forall|i: int| 0 <= i < d.len() implies (#[trigger] d[i]).len() == 0 || !is_white_space(d[i].last()) by {
            assert(d[i] == items[i]);
        }
        lemma_join_lines(d);
        let x = join_with(d, nl);
        let y = items.last();
        assert(free_of(items[items.len() - 1], '\n'));
        assert((items[items.len() - 1]).len() == 0 || !is_white_space(items[items.len() - 1].last()));
        let s = x + nl + y;
        assert(join_with(items, nl) == s);
        assert forall|k: int|
            0 <= k < s.len() && is_white_space(#[trigger] s[k]) && s[k] != '\n' implies k + 1 < s.len()
                && s[k + 1] != '\n' by {
            if k < x.len() {
                assert(s[k] == x[k]);
                assert(is_white_space(x[k]) && x[k] != '\n');
                assert(k + 1 < x.len() && x[k + 1] != '\n');
                assert(s[k + 1] == x[k + 1]);
            } else if k == x.len() {
                assert(s[k] == '\n');
            } else {
                let j = k - x.len() - 1;
                assert(s[k] == y[j]);
                if j + 1 == y.len() {
                    assert(y[j] == y.last());
                } else {
                    assert(s[k + 1] == y[j + 1]);
                }
            }
        }
    }
}

proof fn lemma_join_no_double_space(items: Seq<Seq<char>>)
    requires
        forall|i: int| 0 <= i < items.len() ==> !contains_seq(#[trigger] items[i], double_space()),
    ensures
        !contains_seq(join_with(items, seq!['\n']), double_space()),
    decreases items.len(),
{
    let nl = seq!['\n'];
    let dd = double_space();
    if items.len() == 0 {
        let e = join_with(items, nl);
        if contains_seq(e, dd) {
            let k = choose|k: int| occurs_at(e, dd, k);
        }
    } else if items.len() == 1 {
        assert(!contains_seq(items[0], dd));
    } else {
        let d = items.drop_last();
        assert forall|i: int| 0 <= i < d.len() implies !contains_seq(#[trigger] d[i], dd) by {
            assert(d[i] == items[i]);
        }
        lemma_join_no_double_space(d);
        let x = join_with(d, nl);
        assert(!contains_seq(items[items.len() - 1], dd));
        if contains_seq(nl, dd) {
            let k = choose|k: int| occurs_at(nl, dd, k);
        }
        lemma_no_double_space_concat(x, nl);
        lemma_no_double_space_concat(x + nl, items.last());
    }
}

/// Text none of whose lines ends in white space is left as it is by
/// trimming line ends, but for a final line feed, which is dropped.
pub proof fn lemma_trim_line_ends_of_clean_lines(s: Seq<char>)
    requires
        forall|i: int|
            0 <= i < lines_of(s).len() ==> (#[trigger] lines_of(s)[i]).len() == 0 || !is_white_space(
                lines_of(s)[i].last(),
            ),
    ensures
        s.len() > 0 && s.last() == '\n' ==> trim_line_ends(s) == s.drop_last(),
        !(s.len() > 0 && s.last() == '\n') ==> trim_line_ends(s) == s,
{
    let ls = lines_of(s);
    assert(ls.map_values(|l: Seq<char>| trim_end(l)) =~= ls);
    lemma_join_lines_of(s);
}

/// Trimming line ends leaves no line ending in white space, and adds no two
/// neighbouring spaces where there were none.
pub proof fn lemma_trim_line_ends(s: Seq<char>)
    ensures
        lines_end_cleanly(trim_line_ends(s)),
        !contains_seq(s, double_space()) ==> !contains_seq(trim_line_ends(s), double_space()),
{
    let ls = lines_of(s);
    let items = ls.map_values(|l: Seq<char>| trim_end(l));
    lemma_lines_pieces(s);
    assert forall|i: int| 0 <= i < items.len() implies free_of(#[trigger] items[i], '\n')
        && ((items[i]).len() == 0 || !is_white_space(items[i].last())) by {
        lemma_trim_end_prefix(ls[i]);
        assert(free_of(ls[i], '\n'));
        assert forall|k: int| 0 <= k < items[i].len() implies #[trigger] items[i][k] != '\n' by {
            assert(items[i][k] == ls[i][k]);
        }
    }
    lemma_join_lines(items);
    if !contains_seq(s, double_space()) {
        assert forall|i: int| 0 <= i < items.len() implies !contains_seq(#[trigger] items[i], double_space()) by {
            lemma_trim_end_prefix(ls[i]);
            assert(!contains_seq(ls[i], double_space()));
            lemma_no_double_space_prefix(ls[i], trim_end(ls[i]).len() as int);
        }
        lemma_join_no_double_space(items);
    }
}

} // verus!
