//! Character and string utilities shared by the script parser and the
//! widget state machines.
//!
//! Working text is held as `Vec<char>` so that indexing is cheap and the
//! mathematical view is a plain `Seq<char>`; `String` appears only at the
//! crate's boundary.

use vstd::prelude::*;
use vstd::string::*;

verus! {

/// The ASCII whitespace characters the script format cares about.
pub open spec fn is_space_char(c: char) -> bool {
    c == ' ' || c == '\t' || c == '\r' || c == '\n'
}

pub fn exec_is_space(c: char) -> (r: bool)
    ensures
        r == is_space_char(c),
{
    c == ' ' || c == '\t' || c == '\r' || c == '\n'
}

/// Relies on `String::push`: appends exactly one character.
#[verifier::external_body]
pub fn push_char(s: &mut String, c: char)
    ensures
        final(s)@ == old(s)@.push(c),
{
    s.push(c);
}

/// The characters of a string slice, in order.
pub fn chars_of(s: &str) -> (r: Vec<char>)
    ensures
        r@ == s@,
{
    let n: usize = s.unicode_len();
    let mut v: Vec<char> = Vec::new();
    let mut i: usize = 0;
    while i < n
        invariant
            i <= n,
            n == s@.len(),
            v@ == s@.subrange(0, i as int),
        decreases n - i,
    {
        let c = s.get_char(i);
        v.push(c);
        i = i + 1;
        proof {
            assert(v@ =~= s@.subrange(0, i as int));
        }
    }
    proof {
        assert(s@.subrange(0, n as int) =~= s@);
    }
    v
}

/// A `String` with exactly the given characters.
pub fn string_of(v: &Vec<char>) -> (r: String)
    ensures
        r@ == v@,
{
    let mut s: String = String::new();
    let mut i: usize = 0;
    while i < v.len()
        invariant
            i <= v.len(),
            s@ == v@.subrange(0, i as int),
        decreases v.len() - i,
    {
        push_char(&mut s, v[i]);
        i = i + 1;
        proof {
            assert(s@ =~= v@.subrange(0, i as int));
        }
    }
    proof {
        assert(v@.subrange(0, v.len() as int) =~= v@);
    }
    s
}

/// Character-wise equality of two string slices.
pub fn str_eq(a: &str, b: &str) -> (r: bool)
    ensures
        r == (a@ == b@),
{
    let na: usize = a.unicode_len();
    let nb: usize = b.unicode_len();
    if na != nb {
        return false;
    }
    let mut i: usize = 0;
    while i < na
        invariant
            i <= na,
            na == a@.len(),
            na == b@.len(),
            forall|j: int| 0 <= j < i ==> a@[j] == b@[j],
        decreases na - i,
    {
        if a.get_char(i) != b.get_char(i) {
            return false;
        }
        i = i + 1;
    }
    proof {
        assert(a@ =~= b@);
    }
    true
}

/// Character-wise equality of a character vector and a string slice.
pub fn chars_eq_str(v: &Vec<char>, s: &str) -> (r: bool)
    ensures
        r == (v@ == s@),
{
    let n: usize = s.unicode_len();
    if v.len() != n {
        return false;
    }
    let mut i: usize = 0;
    while i < n
        invariant
            i <= n,
            n == s@.len(),
            n == v@.len(),
            forall|j: int| 0 <= j < i ==> v@[j] == s@[j],
        decreases n - i,
    {
        if v[i] != s.get_char(i) {
            return false;
        }
        i = i + 1;
    }
    proof {
        assert(v@ =~= s@);
    }
    true
}

/// The ASCII lowercase counterpart of a character; others stay as they are.
pub open spec fn lower_char(c: char) -> char {
    if c == 'A' {
        'a'
    } else if c == 'B' {
        'b'
    } else if c == 'C' {
        'c'
    } else if c == 'D' {
        'd'
    } else if c == 'E' {
        'e'
    } else if c == 'F' {
        'f'
    } else if c == 'G' {
        'g'
    } else if c == 'H' {
        'h'
    } else if c == 'I' {
        'i'
    } else if c == 'J' {
        'j'
    } else if c == 'K' {
        'k'
    } else if c == 'L' {
        'l'
    } else if c == 'M' {
        'm'
    } else if c == 'N' {
        'n'
    } else if c == 'O' {
        'o'
    } else if c == 'P' {
        'p'
    } else if c == 'Q' {
        'q'
    } else if c == 'R' {
        'r'
    } else if c == 'S' {
        's'
    } else if c == 'T' {
        't'
    } else if c == 'U' {
        'u'
    } else if c == 'V' {
        'v'
    } else if c == 'W' {
        'w'
    } else if c == 'X' {
        'x'
    } else if c == 'Y' {
        'y'
    } else if c == 'Z' {
        'z'
    } else {
        c
    }
}

/// The sequence with every ASCII letter lowered.
pub open spec fn lower_seq(s: Seq<char>) -> Seq<char> {
    s.map_values(|c: char| lower_char(c))
}

fn exec_lower_char(c: char) -> (r: char)
    ensures
        r == lower_char(c),
{
    match c {
        'A' => 'a',
        'B' => 'b',
        'C' => 'c',
        'D' => 'd',
        'E' => 'e',
        'F' => 'f',
        'G' => 'g',
        'H' => 'h',
        'I' => 'i',
        'J' => 'j',
        'K' => 'k',
        'L' => 'l',
        'M' => 'm',
        'N' => 'n',
        'O' => 'o',
        'P' => 'p',
        'Q' => 'q',
        'R' => 'r',
        'S' => 's',
        'T' => 't',
        'U' => 'u',
        'V' => 'v',
        'W' => 'w',
        'X' => 'x',
        'Y' => 'y',
        'Z' => 'z',
        _ => c,
    }
}

/// Lowers every ASCII letter.
pub fn to_lower_chars(v: &Vec<char>) -> (r: Vec<char>)
    ensures
        r@ == lower_seq(v@),
{
    let mut out: Vec<char> = Vec::new();
    let mut i: usize = 0;
    while i < v.len()
        invariant
            i <= v@.len(),
            out@.len() == i,
            forall|j: int| 0 <= j < i ==> out@[j] == lower_char(v@[j]),
        decreases v.len() - i,
    {
        out.push(exec_lower_char(v[i]));
        i = i + 1;
    }
    proof {
        assert(out@ =~= lower_seq(v@));
    }
    out
}

/// Whether `p` is a prefix of `s`.
pub open spec fn starts_with(s: Seq<char>, p: Seq<char>) -> bool {
    p.len() <= s.len() && s.subrange(0, p.len() as int) == p
}

pub fn chars_start_with(v: &Vec<char>, p: &str) -> (r: bool)
    ensures
        r == starts_with(v@, p@),
{
    let n: usize = p.unicode_len();
    if v.len() < n {
        proof {
            assert(!starts_with(v@, p@));
        }
        return false;
    }
    let mut i: usize = 0;
    while i < n
        invariant
            i <= n,
            n == p@.len(),
            n <= v@.len(),
            forall|j: int| 0 <= j < i ==> v@[j] == p@[j],
        decreases n - i,
    {
        if v[i] != p.get_char(i) {
            proof {
                assert(v@.subrange(0, n as int)[i as int] != p@[i as int]);
            }
            return false;
        }
        i = i + 1;
    }
    proof {
        assert(v@.subrange(0, n as int) =~= p@);
    }
    true
}

/// A copy of `v[from..to]`.
pub fn copy_range(v: &Vec<char>, from: usize, to: usize) -> (r: Vec<char>)
    requires
        from <= to <= v@.len(),
    ensures
        r@ == v@.subrange(from as int, to as int),
{
    let mut out: Vec<char> = Vec::new();
    let mut i: usize = from;
    while i < to
        invariant
            from <= i <= to <= v@.len(),
            out@ == v@.subrange(from as int, i as int),
        decreases to - i,
    {
        out.push(v[i]);
        i = i + 1;
        proof {
            assert(out@ =~= v@.subrange(from as int, i as int));
        }
    }
    out
}

/// Appends all of `src` onto `dst`.
pub fn append_chars(dst: &mut Vec<char>, src: &Vec<char>)
    ensures
        final(dst)@ == old(dst)@ + src@,
{
    let mut i: usize = 0;
    while i < src.len()
        invariant
            i <= src@.len(),
            dst@ == old(dst)@ + src@.subrange(0, i as int),
        decreases src.len() - i,
    {
        dst.push(src[i]);
        i = i + 1;
        proof {
            assert(dst@ =~= old(dst)@ + src@.subrange(0, i as int));
        }
    }
    proof {
        assert(old(dst)@ + src@.subrange(0, src@.len() as int) =~= old(dst)@ + src@);
    }
}

/// Appends the characters of a literal onto `dst`.
pub fn append_str(dst: &mut Vec<char>, s: &str)
    ensures
        final(dst)@ == old(dst)@ + s@,
{
    let n: usize = s.unicode_len();
    let mut i: usize = 0;
    while i < n
        invariant
            i <= n,
            n == s@.len(),
            dst@ == old(dst)@ + s@.subrange(0, i as int),
        decreases n - i,
    {
        dst.push(s.get_char(i));
        i = i + 1;
        proof {
            assert(dst@ =~= old(dst)@ + s@.subrange(0, i as int));
        }
    }
    proof {
        assert(old(dst)@ + s@.subrange(0, n as int) =~= old(dst)@ + s@);
    }
}

/// The input without leading space characters.
pub open spec fn trim_start_spec(s: Seq<char>) -> Seq<char>
    decreases s.len(),
{
    if s.len() > 0 && is_space_char(s[0]) {
        trim_start_spec(s.subrange(1, s.len() as int))
    } else {
        s
    }
}

/// The input without trailing space characters.
pub open spec fn trim_end_spec(s: Seq<char>) -> Seq<char>
    decreases s.len(),
{
    if s.len() > 0 && is_space_char(s[s.len() - 1]) {
        trim_end_spec(s.subrange(0, s.len() - 1))
    } else {
        s
    }
}

/// The input without leading or trailing space characters.
pub open spec fn trim_spec(s: Seq<char>) -> Seq<char> {
    trim_end_spec(trim_start_spec(s))
}

proof fn lemma_trim_start_at(s: Seq<char>, lo: int)
    requires
        0 <= lo <= s.len(),
        forall|j: int| 0 <= j < lo ==> is_space_char(s[j]),
        lo == s.len() || !is_space_char(s[lo]),
    ensures
        trim_start_spec(s) == s.subrange(lo, s.len() as int),
    decreases lo,
{
    if lo == 0 {
        if s.len() > 0 && is_space_char(s[0]) {
            assert(false);
        }
        assert(s.subrange(0, s.len() as int) =~= s);
    } else {
        let t = s.subrange(1, s.len() as int);
        assert(forall|j: int| 0 <= j < lo - 1 ==> t[j] == s[j + 1] && is_space_char(t[j]));
        lemma_trim_start_at(t, lo - 1);
        assert(t.subrange(lo - 1, t.len() as int) =~= s.subrange(lo, s.len() as int));
    }
}

proof fn lemma_trim_end_at(s: Seq<char>, hi: int)
    requires
        0 <= hi <= s.len(),
        forall|j: int| hi <= j < s.len() ==> is_space_char(s[j]),
        hi == 0 || !is_space_char(s[hi - 1]),
    ensures
        trim_end_spec(s) == s.subrange(0, hi),
    decreases s.len(),
{
    if hi == s.len() {
        if s.len() > 0 && is_space_char(s[s.len() - 1]) {
            assert(false);
        }
        assert(s.subrange(0, s.len() as int) =~= s);
    } else {
        let t = s.subrange(0, s.len() - 1);
        assert(forall|j: int| hi <= j < t.len() ==> t[j] == s[j] && is_space_char(t[j]));
        lemma_trim_end_at(t, hi);
        assert(t.subrange(0, hi) =~= s.subrange(0, hi));
    }
}

/// The input without surrounding spaces, as the specification says.
pub fn trim_chars(v: &Vec<char>) -> (r: Vec<char>)
    ensures
        r@ == trim_spec(v@),
{
    let n: usize = v.len();
    let mut lo: usize = 0;
    while lo < n && exec_is_space(v[lo])
        invariant
            lo <= n,
            n == v@.len(),
            forall|j: int| 0 <= j < lo ==> is_space_char(v@[j]),
        decreases n - lo,
    {
        lo = lo + 1;
    }
    let mut hi: usize = n;
    while hi > lo && exec_is_space(v[hi - 1])
        invariant
            lo <= hi <= n,
            n == v@.len(),
            forall|j: int| 0 <= j < lo ==> is_space_char(v@[j]),
            forall|j: int| hi <= j < n ==> is_space_char(v@[j]),
        decreases hi,
    {
        hi = hi - 1;
    }
    proof {
        lemma_trim_start_at(v@, lo as int);
        let t = v@.subrange(lo as int, n as int);
        if hi == lo {
            assert(forall|j: int| 0 <= j < t.len() ==> is_space_char(t[j]));
            lemma_trim_end_at(t, 0);
        } else {
            assert(forall|j: int| hi - lo <= j < t.len() ==> t[j] == v@[j + lo] && is_space_char(
                t[j],
            ));
            assert(!is_space_char(t[hi - lo - 1]));
            lemma_trim_end_at(t, hi - lo);
        }
        assert(t.subrange(0, hi - lo) =~= v@.subrange(lo as int, hi as int));
    }
    copy_range(v, lo, hi)
}

/// The least index `i >= from` with `s[i] == c`, or `s.len()` if there is none.
pub open spec fn find_char_spec(s: Seq<char>, c: char, from: int) -> int
    decreases s.len() - from,
{
    if from < 0 {
        0
    } else if from >= s.len() {
        s.len() as int
    } else if s[from] == c {
        from
    } else {
        find_char_spec(s, c, from + 1)
    }
}

pub proof fn lemma_find_char_at(s: Seq<char>, c: char, from: int, i: int)
    requires
        0 <= from <= i <= s.len(),
        forall|j: int| from <= j < i ==> s[j] != c,
        i == s.len() || s[i] == c,
    ensures
        find_char_spec(s, c, from) == i,
    decreases i - from,
{
    if from < i {
        lemma_find_char_at(s, c, from + 1, i);
    }
}

/// The least index of `c` in `v` at or after `from`, or `v.len()`.
pub fn find_char(v: &Vec<char>, c: char, from: usize) -> (r: usize)
    requires
        from <= v@.len(),
    ensures
        r == find_char_spec(v@, c, from as int),
        from <= r <= v@.len(),
        forall|j: int| from <= j < r ==> v@[j] != c,
        r < v@.len() ==> v@[r as int] == c,
    decreases v@.len() - from,
{
    let mut i: usize = from;
    while i < v.len() && v[i] != c
        invariant
            from <= i <= v@.len(),
            forall|j: int| from <= j < i ==> v@[j] != c,
        decreases v.len() - i,
    {
        i = i + 1;
    }
    proof {
        lemma_find_char_at(v@, c, from as int, i as int);
    }
    i
}

/// The views of a sequence of character vectors.
pub open spec fn views(vs: Seq<Vec<char>>) -> Seq<Seq<char>> {
    vs.map_values(|x: Vec<char>| x@)
}

/// The views of a sequence of strings.
pub open spec fn str_views(vs: Seq<String>) -> Seq<Seq<char>> {
    vs.map_values(|x: String| x@)
}

pub proof fn lemma_views_push(vs: Seq<Vec<char>>, x: Vec<char>)
    ensures
        views(vs.push(x)) =~= views(vs).push(x@),
{
}

pub proof fn lemma_str_views_push(vs: Seq<String>, x: String)
    ensures
        str_views(vs.push(x)) =~= str_views(vs).push(x@),
{
}

/// Strings with exactly the views of the given character vectors.
pub fn strings_of(vs: &Vec<Vec<char>>) -> (r: Vec<String>)
    ensures
        str_views(r@) =~= views(vs@),
{
    let mut out: Vec<String> = Vec::new();
    let mut i: usize = 0;
    while i < vs.len()
        invariant
            i <= vs@.len(),
            str_views(out@) =~= views(vs@).subrange(0, i as int),
        decreases vs.len() - i,
    {
        let s = string_of(&vs[i]);
        proof {
            lemma_str_views_push(out@, s);
        }
        out.push(s);
        i = i + 1;
        proof {
            assert(str_views(out@) =~= views(vs@).subrange(0, i as int));
        }
    }
    proof {
        assert(views(vs@).subrange(0, vs@.len() as int) =~= views(vs@));
    }
    out
}

/// Character vectors with exactly the views of the given strings.
pub fn charses_of(vs: &Vec<String>) -> (r: Vec<Vec<char>>)
    ensures
        views(r@) =~= str_views(vs@),
{
    let mut out: Vec<Vec<char>> = Vec::new();
    let mut i: usize = 0;
    while i < vs.len()
        invariant
            i <= vs@.len(),
            views(out@) =~= str_views(vs@).subrange(0, i as int),
        decreases vs.len() - i,
    {
        let s = chars_of(vs[i].as_str());
        proof {
            lemma_views_push(out@, s);
        }
        out.push(s);
        i = i + 1;
        proof {
            assert(views(out@) =~= str_views(vs@).subrange(0, i as int));
        }
    }
    proof {
        assert(str_views(vs@).subrange(0, vs@.len() as int) =~= str_views(vs@));
    }
    out
}

/// The lines of `s` from index `from` on: segments split at newlines, with a
/// carriage return before a newline dropped, and no final empty line.
pub open spec fn split_lines_from(s: Seq<char>, from: int) -> Seq<Seq<char>>
    decreases s.len() - from,
{
    if from < 0 || from >= s.len() {
        Seq::empty()
    } else {
        let i = find_char_spec(s, '\n', from);
        if i < from {
            Seq::empty()
        } else if i >= s.len() {
            seq![s.subrange(from, s.len() as int)]
        } else {
            let end = if i > from && s[i - 1] == '\r' {
                i - 1
            } else {
                i
            };
            seq![s.subrange(from, end)] + split_lines_from(s, i + 1)
        }
    }
}

/// The lines of `s`, as `str::lines` gives them.
pub open spec fn split_lines_spec(s: Seq<char>) -> Seq<Seq<char>> {
    split_lines_from(s, 0)
}

/// Splits into lines at newlines, dropping a carriage return that stands
/// directly before a newline.
pub fn split_lines(v: &Vec<char>) -> (r: Vec<Vec<char>>)
    ensures
        views(r@) == split_lines_spec(v@),
{
    let mut out: Vec<Vec<char>> = Vec::new();
    let mut pos: usize = 0;
    while pos < v.len()
        invariant
            pos <= v@.len(),
            views(out@) + split_lines_from(v@, pos as int) =~= split_lines_spec(v@),
        decreases v.len() - pos,
    {
        let ghost pos0 = pos as int;
        let nl = find_char(v, '\n', pos);
        if nl >= v.len() {
            let line = copy_range(v, pos, v.len());
            proof {
                lemma_views_push(out@, line);
                assert(split_lines_from(v@, pos0) =~= seq![v@.subrange(pos0, v@.len() as int)]);
            }
            out.push(line);
            pos = v.len();
            proof {
                assert(views(out@) + split_lines_from(v@, pos as int) =~= split_lines_spec(v@));
            }
        } else {
            let end: usize = if nl > pos && v[nl - 1] == '\r' {
                nl - 1
            } else {
                nl
            };
            let line = copy_range(v, pos, end);
            proof {
                lemma_views_push(out@, line);
                assert(split_lines_from(v@, pos0) =~= seq![v@.subrange(pos0, end as int)]
                    + split_lines_from(v@, nl + 1));
            }
            out.push(line);
            pos = nl + 1;
            proof {
                assert(views(out@) + split_lines_from(v@, pos as int) =~= split_lines_spec(v@));
            }
        }
    }
    proof {
        assert(views(out@) + split_lines_from(v@, pos as int) =~= views(out@));
    }
    out
}

/// The given segments joined with single newlines.
pub open spec fn join_nl_spec(ls: Seq<Seq<char>>) -> Seq<char>
    decreases ls.len(),
{
    if ls.len() == 0 {
        Seq::empty()
    } else if ls.len() == 1 {
        ls[0]
    } else {
        ls[0] + seq!['\n'] + join_nl_spec(ls.subrange(1, ls.len() as int))
    }
}

proof fn lemma_join_nl_push(ls: Seq<Seq<char>>, x: Seq<char>)
    ensures
        ls.len() == 0 ==> join_nl_spec(ls.push(x)) =~= x,
        ls.len() > 0 ==> join_nl_spec(ls.push(x)) =~= join_nl_spec(ls) + seq!['\n'] + x,
    decreases ls.len(),
{
    if ls.len() == 0 {
        assert(join_nl_spec(ls.push(x)) == ls.push(x)[0]);
    } else if ls.len() == 1 {
        assert(ls.push(x).subrange(1, 2) =~= seq![x]);
        assert(join_nl_spec(seq![x]) == x);
    } else {
        let tail = ls.subrange(1, ls.len() as int);
        lemma_join_nl_push(tail, x);
        assert(ls.push(x).subrange(1, ls.push(x).len() as int) =~= tail.push(x));
    }
}

/// Joins segments with single newlines between them.
pub fn join_nl(ls: &Vec<Vec<char>>) -> (r: Vec<char>)
    ensures
        r@ == join_nl_spec(views(ls@)),
{
    let mut out: Vec<char> = Vec::new();
    let mut i: usize = 0;
    while i < ls.len()
        invariant
            i <= ls@.len(),
            out@ =~= join_nl_spec(views(ls@).subrange(0, i as int)),
        decreases ls.len() - i,
    {
        if i > 0 {
            out.push('\n');
        }
        append_chars(&mut out, &ls[i]);
        i = i + 1;
        proof {
            let pre = views(ls@).subrange(0, i - 1);
            lemma_join_nl_push(pre, ls@[i - 1]@);
            assert(pre.push(ls@[i - 1]@) =~= views(ls@).subrange(0, i as int));
        }
    }
    proof {
        assert(views(ls@).subrange(0, ls@.len() as int) =~= views(ls@));
    }
    out
}

/// The given segments joined with a single separator character.
pub open spec fn join_with_spec(ls: Seq<Seq<char>>, c: char) -> Seq<char>
    decreases ls.len(),
{
    if ls.len() == 0 {
        Seq::empty()
    } else if ls.len() == 1 {
        ls[0]
    } else {
        ls[0] + seq![c] + join_with_spec(ls.subrange(1, ls.len() as int), c)
    }
}

pub proof fn lemma_join_with_push(ls: Seq<Seq<char>>, x: Seq<char>, c: char)
    ensures
        ls.len() == 0 ==> join_with_spec(ls.push(x), c) =~= x,
        ls.len() > 0 ==> join_with_spec(ls.push(x), c) =~= join_with_spec(ls, c) + seq![c] + x,
    decreases ls.len(),
{
    if ls.len() == 0 {
        assert(join_with_spec(ls.push(x), c) == ls.push(x)[0]);
    } else if ls.len() == 1 {
        assert(ls.push(x).subrange(1, 2) =~= seq![x]);
        assert(join_with_spec(seq![x], c) == x);
    } else {
        let tail = ls.subrange(1, ls.len() as int);
        lemma_join_with_push(tail, x, c);
        assert(ls.push(x).subrange(1, ls.push(x).len() as int) =~= tail.push(x));
    }
}

/// Joins segments with a single separator character between them.
pub fn join_with(ls: &Vec<Vec<char>>, c: char) -> (r: Vec<char>)
    ensures
        r@ == join_with_spec(views(ls@), c),
{
    let mut out: Vec<char> = Vec::new();
    let mut i: usize = 0;
    while i < ls.len()
        invariant
            i <= ls@.len(),
            out@ =~= join_with_spec(views(ls@).subrange(0, i as int), c),
        decreases ls.len() - i,
    {
        if i > 0 {
            out.push(c);
        }
        append_chars(&mut out, &ls[i]);
        i = i + 1;
        proof {
            let pre = views(ls@).subrange(0, i - 1);
            lemma_join_with_push(pre, ls@[i - 1]@, c);
            assert(pre.push(ls@[i - 1]@) =~= views(ls@).subrange(0, i as int));
        }
    }
    proof {
        assert(views(ls@).subrange(0, ls@.len() as int) =~= views(ls@));
    }
    out
}

/// The segments of `s` from `from` on, split at every occurrence of `c`;
/// empty segments are kept.
pub open spec fn split_char_from(s: Seq<char>, c: char, from: int) -> Seq<Seq<char>>
    decreases s.len() - from,
{
    if from < 0 || from > s.len() {
        Seq::empty()
    } else {
        let i = find_char_spec(s, c, from);
        if i < from {
            Seq::empty()
        } else if i >= s.len() {
            seq![s.subrange(from, s.len() as int)]
        } else {
            seq![s.subrange(from, i)] + split_char_from(s, c, i + 1)
        }
    }
}

/// The segments of `s` split at every occurrence of `c`.
pub open spec fn split_char_spec(s: Seq<char>, c: char) -> Seq<Seq<char>> {
    split_char_from(s, c, 0)
}

/// Splits at every occurrence of `c`, keeping empty segments.
pub fn split_char(v: &Vec<char>, c: char) -> (r: Vec<Vec<char>>)
    ensures
        views(r@) == split_char_spec(v@, c),
        r@.len() >= 1,
{
    let mut out: Vec<Vec<char>> = Vec::new();
    let mut pos: usize = 0;
    loop
        invariant
            pos <= v@.len(),
            views(out@) + split_char_from(v@, c, pos as int) =~= split_char_spec(v@, c),
        decreases v@.len() - pos,
    {
        let ghost pos0 = pos as int;
        let i = find_char(v, c, pos);
        let seg = copy_range(v, pos, i);
        proof {
            lemma_views_push(out@, seg);
        }
        out.push(seg);
        if i >= v.len() {
            proof {
                assert(split_char_from(v@, c, pos0) =~= seq![v@.subrange(pos0, v@.len() as int)]);
                assert(views(out@) =~= split_char_spec(v@, c));
            }
            return out;
        }
        pos = i + 1;
        proof {
            assert(split_char_from(v@, c, pos0) =~= seq![v@.subrange(pos0, i as int)]
                + split_char_from(v@, c, pos as int));
            assert(views(out@) + split_char_from(v@, c, pos as int) =~= split_char_spec(v@, c));
        }
    }
}

/// The least index `i >= from` with a space character, or `s.len()`.
pub open spec fn find_space_spec(s: Seq<char>, from: int) -> int
    decreases s.len() - from,
{
    if from < 0 {
        0
    } else if from >= s.len() {
        s.len() as int
    } else if is_space_char(s[from]) {
        from
    } else {
        find_space_spec(s, from + 1)
    }
}

proof fn lemma_find_space_at(s: Seq<char>, from: int, i: int)
    requires
        0 <= from <= i <= s.len(),
        forall|j: int| from <= j < i ==> !is_space_char(s[j]),
        i == s.len() || is_space_char(s[i]),
    ensures
        find_space_spec(s, from) == i,
    decreases i - from,
{
    if from < i {
        lemma_find_space_at(s, from + 1, i);
    }
}

/// The maximal space-free segments of `s` from `from` on.
pub open spec fn split_ws_from(s: Seq<char>, from: int) -> Seq<Seq<char>>
    decreases s.len() - from,
{
    if from < 0 || from >= s.len() {
        Seq::empty()
    } else if is_space_char(s[from]) {
        split_ws_from(s, from + 1)
    } else {
        let i = find_space_spec(s, from);
        if i <= from || i > s.len() {
            Seq::empty()
        } else {
            seq![s.subrange(from, i)] + split_ws_from(s, i)
        }
    }
}

/// The maximal space-free segments of `s`, in order.
pub open spec fn split_ws_spec(s: Seq<char>) -> Seq<Seq<char>> {
    split_ws_from(s, 0)
}

/// Splits at runs of space characters, keeping no empty segments.
pub fn split_ws(v: &Vec<char>) -> (r: Vec<Vec<char>>)
    ensures
        views(r@) == split_ws_spec(v@),
{
    let mut out: Vec<Vec<char>> = Vec::new();
    let mut pos: usize = 0;
    while pos < v.len()
        invariant
            pos <= v@.len(),
            views(out@) + split_ws_from(v@, pos as int) =~= split_ws_spec(v@),
        decreases v.len() - pos,
    {
        if exec_is_space(v[pos]) {
            pos = pos + 1;
        } else {
            let ghost pos0 = pos as int;
            let mut i: usize = pos + 1;
            while i < v.len() && !exec_is_space(v[i])
                invariant
                    pos < i <= v@.len(),
                    forall|j: int| pos <= j < i ==> !is_space_char(v@[j]),
                    !is_space_char(v@[pos as int]),
                decreases v.len() - i,
            {
                i = i + 1;
            }
            proof {
                lemma_find_space_at(v@, pos0, i as int);
            }
            let seg = copy_range(v, pos, i);
            proof {
                lemma_views_push(out@, seg);
                assert(split_ws_from(v@, pos0) =~= seq![v@.subrange(pos0, i as int)]
                    + split_ws_from(v@, i as int));
            }
            out.push(seg);
            pos = i;
            proof {
                assert(views(out@) + split_ws_from(v@, pos as int) =~= split_ws_spec(v@));
            }
        }
    }
    proof {
        assert(views(out@) + split_ws_from(v@, pos as int) =~= views(out@));
    }
    out
}

/// Whether the pattern `p` occurs in `s` at position `i`.
pub open spec fn match_at(s: Seq<char>, p: Seq<char>, i: int) -> bool {
    0 <= i && i + p.len() <= s.len() && s.subrange(i, i + p.len()) == p
}

/// The least position `i >= from` where `p` occurs in `s`, or `-1`.
pub open spec fn find_sub_spec(s: Seq<char>, p: Seq<char>, from: int) -> int
    decreases s.len() - from,
{
    if from < 0 || from + p.len() > s.len() || p.len() == 0 {
        -1
    } else if match_at(s, p, from) {
        from
    } else {
        find_sub_spec(s, p, from + 1)
    }
}

proof fn lemma_find_sub_at(s: Seq<char>, p: Seq<char>, from: int, i: int)
    requires
        0 <= from <= i,
        p.len() >= 1,
        i + p.len() <= s.len(),
        forall|j: int| from <= j < i ==> !match_at(s, p, j),
        match_at(s, p, i),
    ensures
        find_sub_spec(s, p, from) == i,
    decreases i - from,
{
    if from < i {
        lemma_find_sub_at(s, p, from + 1, i);
    }
}

proof fn lemma_find_sub_none(s: Seq<char>, p: Seq<char>, from: int)
    requires
        0 <= from,
        p.len() >= 1,
        forall|j: int| from <= j ==> !match_at(s, p, j),
    ensures
        find_sub_spec(s, p, from) == -1,
    decreases s.len() - from,
{
    if from + p.len() <= s.len() {
        lemma_find_sub_none(s, p, from + 1);
    }
}

/// Whether `p` occurs in `v` at position `i`.
pub fn is_match_at(v: &Vec<char>, p: &Vec<char>, i: usize) -> (r: bool)
    requires
        i + p@.len() <= v@.len(),
    ensures
        r == match_at(v@, p@, i as int),
{
    let n: usize = v.len();
    let mut k: usize = 0;
    while k < p.len()
        invariant
            k <= p@.len(),
            n == v@.len(),
            i + p@.len() <= n,
            forall|j: int| 0 <= j < k ==> v@[i + j] == p@[j],
        decreases p.len() - k,
    {
        if v[i + k] != p[k] {
            proof {
                assert(v@.subrange(i as int, i + p@.len())[k as int] != p@[k as int]);
            }
            return false;
        }
        k = k + 1;
    }
    proof {
        assert(v@.subrange(i as int, i + p@.len()) =~= p@);
    }
    true
}

/// The least position at or after `from` where `p` occurs in `v`, if any.
pub fn find_sub(v: &Vec<char>, p: &Vec<char>, from: usize) -> (r: Option<usize>)
    requires
        from <= v@.len(),
        p@.len() >= 1,
    ensures
        match r {
            Some(i) => from <= i && i + p@.len() <= v@.len() && match_at(v@, p@, i as int)
                && find_sub_spec(v@, p@, from as int) == i && forall|j: int|
                from <= j < i ==> !match_at(v@, p@, j),
            None => find_sub_spec(v@, p@, from as int) == -1 && forall|j: int|
                from <= j ==> !match_at(v@, p@, j),
        },
{
    if p.len() > v.len() || from > v.len() - p.len() {
        proof {
            assert forall|j: int| from <= j implies !#[trigger] match_at(v@, p@, j) by {
                assert(j + p@.len() > v@.len());
            }
            lemma_find_sub_none(v@, p@, from as int);
        }
        return None;
    }
    let n: usize = v.len();
    let last: usize = n - p.len();
    let mut i: usize = from;
    while i <= last
        invariant
            from <= i <= last + 1,
            n == v@.len(),
            last + p@.len() == n,
            p@.len() >= 1,
            forall|j: int| from <= j < i ==> !match_at(v@, p@, j),
        decreases last + 1 - i,
    {
        if is_match_at(v, p, i) {
            proof {
                lemma_find_sub_at(v@, p@, from as int, i as int);
            }
            return Some(i);
        }
        i = i + 1;
    }
    proof {
        assert forall|j: int| from <= j implies !#[trigger] match_at(v@, p@, j) by {
            if j >= i {
                assert(j + p@.len() > v@.len());
            }
        }
        lemma_find_sub_none(v@, p@, from as int);
    }
    None
}

/// Whether `p` occurs anywhere in `v`.
pub fn contains_sub(v: &Vec<char>, p: &Vec<char>) -> (r: bool)
    requires
        p@.len() >= 1,
    ensures
        r == (find_sub_spec(v@, p@, 0) >= 0),
{
    match find_sub(v, p, 0) {
        Some(_) => true,
        None => false,
    }
}

/// `s` with every occurrence of `p` replaced by `t`, scanning left to right
/// without overlap.
pub open spec fn replace_all_spec(s: Seq<char>, p: Seq<char>, t: Seq<char>) -> Seq<char>
    decreases s.len(),
    when p.len() > 0
{
    let i = find_sub_spec(s, p, 0);
    if i < 0 || i + p.len() > s.len() {
        s
    } else {
        s.subrange(0, i) + t + replace_all_spec(s.subrange(i + p.len() as int, s.len() as int), p, t)
    }
}

/// Replaces every occurrence of `p` in `v` by `t`.
pub fn replace_all(v: &Vec<char>, p: &Vec<char>, t: &Vec<char>) -> (r: Vec<char>)
    requires
        p@.len() > 0,
    ensures
        r@ == replace_all_spec(v@, p@, t@),
{
    let mut out: Vec<char> = Vec::new();
    proof {
        assert(v@.subrange(0, v@.len() as int) =~= v@);
    }
    let n: usize = v.len();
    let mut pos: usize = 0;
    loop
        invariant
            pos <= v@.len(),
            n == v@.len(),
            p@.len() > 0,
            replace_all_spec(v@, p@, t@) == out@ + replace_all_spec(
                v@.subrange(pos as int, v@.len() as int),
                p@,
                t@,
            ),
        decreases v@.len() - pos,
    {
        let ghost pos0 = pos as int;
        let ghost s = v@.subrange(pos0, v@.len() as int);
        match find_sub(v, p, pos) {
            Some(i) => {
                proof {
                    let rel = i - pos0;
                    assert forall|j: int| 0 <= j < rel implies !#[trigger] match_at(s, p@, j) by {
                        if match_at(s, p@, j) {
                            assert(s.subrange(j, j + p@.len()) =~= v@.subrange(
                                pos0 + j,
                                pos0 + j + p@.len(),
                            ));
                            assert(match_at(v@, p@, pos0 + j));
                        }
                    }
                    assert(s.subrange(rel, rel + p@.len()) =~= v@.subrange(
                        i as int,
                        i + p@.len(),
                    ));
                    assert(match_at(s, p@, rel));
                    lemma_find_sub_at(s, p@, 0, rel);
                    assert(replace_all_spec(s, p@, t@) == s.subrange(0, rel) + t@
                        + replace_all_spec(s.subrange(rel + p@.len() as int, s.len() as int), p@, t@));
                    assert(s.subrange(0, rel) =~= v@.subrange(pos0, i as int));
                    assert(s.subrange(rel + p@.len() as int, s.len() as int) =~= v@.subrange(
                        i + p@.len(),
                        v@.len() as int,
                    ));
                }
                let pre = copy_range(v, pos, i);
                append_chars(&mut out, &pre);
                append_chars(&mut out, t);
                pos = i + p.len();
                proof {
                    assert(replace_all_spec(v@, p@, t@) =~= out@ + replace_all_spec(
                        v@.subrange(pos as int, v@.len() as int),
                        p@,
                        t@,
                    ));
                }
            },
            None => {
                proof {
                    assert forall|j: int| 0 <= j implies !#[trigger] match_at(s, p@, j) by {
                        if match_at(s, p@, j) {
                            assert(s.subrange(j, j + p@.len()) =~= v@.subrange(
                                pos0 + j,
                                pos0 + j + p@.len(),
                            ));
                            assert(match_at(v@, p@, pos0 + j));
                        }
                    }
                    lemma_find_sub_none(s, p@, 0);
                    assert(replace_all_spec(s, p@, t@) == s);
                }
                let rest = copy_range(v, pos, v.len());
                append_chars(&mut out, &rest);
                proof {
                    assert(out@ =~= replace_all_spec(v@, p@, t@));
                }
                return out;
            },
        }
    }
}

} // verus!
