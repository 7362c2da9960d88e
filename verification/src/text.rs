//! Character-level text processing with specifications.
//!
//! Every string operation the library needs (line splitting, trimming,
//! prefix handling, splitting, replacement, joining, decimal rendering)
//! is defined here once as a spec function over `Seq<char>` and once as an
//! executable function proved to compute it.
use vstd::prelude::*;

verus! {

broadcast use vstd::string::group_string_axioms;

// ───────────────────────────── conversions ─────────────────────────────

/// Appends one character to a string (`String::push`).
#[verifier::external_body]
pub(crate) fn push_char(s: &mut String, c: char)
    ensures
        final(s)@ == old(s)@.push(c),
{
    s.push(c)
}

/// The characters of a string slice, in order.
pub fn chars_of(s: &str) -> (v: Vec<char>)
    ensures
        v@ == s@,
{
    let mut v: Vec<char> = Vec::new();
    for c in it: s.chars()
        invariant
            v@ == it.seq().take(it.index() as int),
    {
        v.push(c);
    }
    v
}

/// The string made of the characters `v[lo..hi]`.
pub fn string_of_range(v: &Vec<char>, lo: usize, hi: usize) -> (s: String)
    requires
        lo <= hi <= v.len(),
    ensures
        s@ == v@.subrange(lo as int, hi as int),
{
    let mut s = String::new();
    let mut i = lo;
    while i < hi
        invariant
            lo <= i <= hi <= v.len(),
            s@ == v@.subrange(lo as int, i as int),
        decreases hi - i,
    {
        push_char(&mut s, v[i]);
        assert(v@.subrange(lo as int, i + 1) == v@.subrange(lo as int, i as int).push(v@[i as int]));
        i += 1;
    }
    s
}

/// The string made of all characters of `v`.
pub fn string_of(v: &Vec<char>) -> (s: String)
    ensures
        s@ == v@,
{
    let s = string_of_range(v, 0, v.len());
    assert(v@.subrange(0, v@.len() as int) == v@);
    s
}

/// A fresh `String` holding the characters of `s`.
pub fn owned(s: &str) -> (r: String)
    ensures
        r@ == s@,
{
    s.to_string()
}

/// Appends `t` to `s`.
pub fn push_str(s: &mut String, t: &str)
    ensures
        final(s)@ == old(s)@ + t@,
{
    s.append(t);
}

/// Whether two strings hold the same characters.
pub fn str_eq(a: &str, b: &str) -> (r: bool)
    ensures
        r == (a@ == b@),
{
    let x = a.to_string();
    let y = b.to_string();
    x == y
}

// ───────────────────────────── predicates ──────────────────────────────

/// `p` is a prefix of `s`.
pub open spec fn starts_with(s: Seq<char>, p: Seq<char>) -> bool {
    p.len() <= s.len() && s.take(p.len() as int) == p
}

/// `p` is a suffix of `s`.
pub open spec fn ends_with(s: Seq<char>, p: Seq<char>) -> bool {
    p.len() <= s.len() && s.skip(s.len() - p.len()) == p
}

/// `p` occurs in `s` starting at index `i`.
pub open spec fn occurs_at(s: Seq<char>, p: Seq<char>, i: int) -> bool {
    0 <= i && i + p.len() <= s.len() && s.subrange(i, i + p.len()) == p
}

/// `p` occurs somewhere in `s`.
pub open spec fn contains(s: Seq<char>, p: Seq<char>) -> bool {
    exists|i: int| occurs_at(s, p, i)
}

/// Executable prefix test.
pub fn has_prefix(s: &str, p: &str) -> (r: bool)
    ensures
        r == starts_with(s@, p@),
{
    let sv = chars_of(s);
    let pv = chars_of(p);
    seq_has_prefix_at(&sv, &pv, 0)
}

/// `p` occurs in `sv` at index `at`.
pub fn seq_has_prefix_at(sv: &Vec<char>, pv: &Vec<char>, at: usize) -> (r: bool)
    requires
        at <= sv.len(),
    ensures
        r == occurs_at(sv@, pv@, at as int),
        at == 0 ==> (r == starts_with(sv@, pv@)),
{
    if pv.len() > sv.len() - at {
        return false;
    }
    let mut i: usize = 0;
    while i < pv.len()
        invariant
            at + pv.len() <= sv.len(),
            i <= pv.len(),
            forall|j: int| 0 <= j < i ==> sv@[at + j] == pv@[j],
        decreases pv.len() - i,
    {
        if sv[at + i] != pv[i] {
            assert(sv@.subrange(at as int, at + pv.len())[i as int] != pv@[i as int]);
            return false;
        }
        i += 1;
    }
    assert(sv@.subrange(at as int, at + pv.len()) =~= pv@);
    if at == 0 {
        assert(sv@.take(pv.len() as int) =~= sv@.subrange(0, pv.len() as int));
    }
    true
}

/// Executable suffix test.
pub fn has_suffix(s: &str, p: &str) -> (r: bool)
    ensures
        r == ends_with(s@, p@),
{
    let sv = chars_of(s);
    let pv = chars_of(p);
    if pv.len() > sv.len() {
        return false;
    }
    let r = seq_has_prefix_at(&sv, &pv, sv.len() - pv.len());
    assert(sv@.skip(sv.len() - pv.len()) =~= sv@.subrange(sv.len() - pv.len(), sv.len() as int));
    r
}

/// Index of the first occurrence of `p` in `s` at or after `from`, if any.
pub open spec fn find_from(s: Seq<char>, p: Seq<char>, from: int) -> Option<int>
    decreases s.len() + 1 - from,
{
    if from < 0 || from + p.len() > s.len() {
        None
    } else if occurs_at(s, p, from) {
        Some(from)
    } else {
        find_from(s, p, from + 1)
    }
}

/// Index of the first occurrence of `p` in `s`.
pub open spec fn find(s: Seq<char>, p: Seq<char>) -> Option<int> {
    find_from(s, p, 0)
}

pub proof fn lemma_find_from(s: Seq<char>, p: Seq<char>, from: int)
    requires
        0 <= from,
    ensures
        find_from(s, p, from) matches Some(k) ==> from <= k && occurs_at(s, p, k) && forall|j: int|
            from <= j < k ==> !occurs_at(s, p, j),
        find_from(s, p, from) is None ==> forall|j: int| from <= j ==> !occurs_at(s, p, j),
    decreases s.len() + 1 - from,
{
    if from + p.len() > s.len() {
    } else if occurs_at(s, p, from) {
    } else {
        lemma_find_from(s, p, from + 1);
    }
}

/// Executable search: first occurrence of `pv` in `sv` at or after `from`.
pub fn find_seq_from(sv: &Vec<char>, pv: &Vec<char>, from: usize) -> (r: Option<usize>)
    requires
        from <= sv.len(),
    ensures
        r matches Some(k) ==> find_from(sv@, pv@, from as int) == Some(k as int),
        r is None ==> find_from(sv@, pv@, from as int) is None,
{
    let mut i = from;
    loop
        invariant
            from <= i <= sv.len(),
            find_from(sv@, pv@, from as int) == find_from(sv@, pv@, i as int),
        decreases sv.len() - i,
    {
        if pv.len() > sv.len() - i {
            return None;
        }
        if seq_has_prefix_at(sv, pv, i) {
            return Some(i);
        }
        if i == sv.len() {
            assert(find_from(sv@, pv@, i as int + 1) is None);
            return None;
        }
        i += 1;
    }
}

/// Executable search for the first occurrence of `p` in `s`.
pub fn find_str(s: &str, p: &str) -> (r: Option<usize>)
    ensures
        r matches Some(k) ==> find(s@, p@) == Some(k as int),
        r is None ==> find(s@, p@) is None,
{
    let sv = chars_of(s);
    let pv = chars_of(p);
    find_seq_from(&sv, &pv, 0)
}

/// Executable containment test.
pub fn has_substr(s: &str, p: &str) -> (r: bool)
    ensures
        r == contains(s@, p@),
{
    let f = find_str(s, p);
    proof {
        lemma_find_from(s@, p@, 0);
    }
    f.is_some()
}


// ───────────────────────────── lines ───────────────────────────────────

/// Removes one trailing carriage return.
pub open spec fn strip_cr(l: Seq<char>) -> Seq<char> {
    if l.len() > 0 && l.last() == '\r' {
        l.drop_last()
    } else {
        l
    }
}

/// The lines of `s` scanned from position `i`, the current line having
/// begun at `start` (`str::lines`: a line ends at `\n`, a `\r` right
/// before that `\n` is dropped, and a final line may lack its `\n`).
pub open spec fn lines_from(s: Seq<char>, start: int, i: int) -> Seq<Seq<char>>
    decreases s.len() - i,
{
    if i >= s.len() {
        if start < s.len() {
            seq![s.subrange(start, s.len() as int)]
        } else {
            seq![]
        }
    } else if s[i] == '\n' {
        seq![strip_cr(s.subrange(start, i))] + lines_from(s, i + 1, i + 1)
    } else {
        lines_from(s, start, i + 1)
    }
}

/// The lines of `s`, as `str::lines` yields them.
pub open spec fn lines(s: Seq<char>) -> Seq<Seq<char>> {
    lines_from(s, 0, 0)
}

proof fn lemma_lines_shift(x: Seq<char>, y: Seq<char>, st: int, j: int)
    requires
        0 <= st <= j <= y.len(),
    ensures
        lines_from(x + y, x.len() + st, x.len() + j) == lines_from(y, st, j),
    decreases y.len() - j,
{
    let s = x + y;
    if j < y.len() {
        assert(s[x.len() + j] == y[j]);
        assert(s.subrange(x.len() + st, x.len() + j) =~= y.subrange(st, j));
        if y[j] == '\n' {
            lemma_lines_shift(x, y, j + 1, j + 1);
        } else {
            lemma_lines_shift(x, y, st, j + 1);
        }
    } else {
        assert(s.subrange(x.len() + st, s.len() as int) =~= y.subrange(st, y.len() as int));
    }
}

proof fn lemma_lines_scan(s: Seq<char>, start: int, i: int, e: int)
    requires
        0 <= start <= i <= e < s.len(),
        s[e] == '\n',
        forall|q: int| i <= q < e ==> s[q] != '\n',
    ensures
        lines_from(s, start, i) == seq![strip_cr(s.subrange(start, e))]
            + lines_from(s, e + 1, e + 1),
    decreases e - i,
{
    if i < e {
        lemma_lines_scan(s, start, i + 1, e);
    }
}

/// The lines of `a`, a newline, then `rest`, when `a` has no newline.
pub proof fn lemma_lines_first(a: Seq<char>, rest: Seq<char>)
    requires
        forall|q: int| 0 <= q < a.len() ==> a[q] != '\n',
    ensures
        lines(a + seq!['\n'] + rest) == seq![strip_cr(a)] + lines(rest),
{
    let x = a + seq!['\n'];
    let s = x + rest;
    assert(s == a + seq!['\n'] + rest);
    assert forall|q: int| 0 <= q < a.len() implies s[q] != '\n' by {
        assert(s[q] == a[q]);
    }
    assert(s[a.len() as int] == '\n');
    lemma_lines_scan(s, 0, 0, a.len() as int);
    assert(s.subrange(0, a.len() as int) =~= a);
    lemma_lines_shift(x, rest, 0, 0);
}

/// A text without newlines is one line (none when it is empty).
pub proof fn lemma_lines_single(s: Seq<char>)
    requires
        forall|q: int| 0 <= q < s.len() ==> s[q] != '\n',
    ensures
        lines(s) == (if s.len() == 0 {
            Seq::<Seq<char>>::empty()
        } else {
            seq![s]
        }),
{
    lemma_lines_tail(s, 0, 0);
    assert(s.subrange(0, s.len() as int) =~= s);
}

proof fn lemma_lines_tail(s: Seq<char>, start: int, i: int)
    requires
        0 <= start <= i <= s.len(),
        forall|q: int| i <= q < s.len() ==> s[q] != '\n',
    ensures
        lines_from(s, start, i) == (if start < s.len() {
            seq![s.subrange(start, s.len() as int)]
        } else {
            Seq::<Seq<char>>::empty()
        }),
    decreases s.len() - i,
{
    if i < s.len() {
        lemma_lines_tail(s, start, i + 1);
    }
}

/// The parts of a join, taken from the front.
pub proof fn lemma_join_front(parts: Seq<Seq<char>>, sep: Seq<char>)
    requires
        parts.len() >= 2,
    ensures
        join(parts, sep) == parts[0] + sep + join(parts.drop_first(), sep),
    decreases parts.len(),
{
    if parts.len() == 2 {
        assert(parts.drop_last() =~= seq![parts[0]]);
        assert(parts.drop_first() =~= seq![parts[1]]);
        assert(join(parts.drop_last(), sep) == parts[0]);
        assert(join(parts.drop_first(), sep) == parts[1]);
        assert(join(parts, sep) == join(parts.drop_last(), sep) + sep + parts.last());
    } else {
        lemma_join_front(parts.drop_last(), sep);
        assert(parts.drop_last().drop_first() =~= parts.drop_first().drop_last());
        assert(parts.drop_first().last() == parts.last());
        assert(parts.drop_last()[0] == parts[0]);
        let c = join(parts.drop_last().drop_first(), sep);
        assert(join(parts.drop_first(), sep) == join(parts.drop_first().drop_last(), sep) + sep + parts.drop_first().last());
        assert(parts.drop_last().drop_first() =~= parts.drop_first().drop_last());
        assert(join(parts.drop_last(), sep) == parts[0] + sep + c);
        assert(join(parts, sep) == join(parts.drop_last(), sep) + sep + parts.last());
        assert(join(parts.drop_first(), sep) == c + sep + parts.last());
        assert(parts[0] + sep + c + sep + parts.last() =~= parts[0] + sep + (c + sep + parts.last()));
    }
}

/// Lines joined with newlines read back as those lines (but for an empty
/// last one), when no line holds a newline and none before the last ends
/// with a carriage return.
pub proof fn lemma_lines_of_join(ls: Seq<Seq<char>>)
    requires
        ls.len() >= 1,
        forall|i: int, q: int| 0 <= i < ls.len() && 0 <= q < ls[i].len() ==> #[trigger] ls[i][q] != '\n',
        forall|i: int| 0 <= i < ls.len() - 1 ==> strip_cr(#[trigger] ls[i]) == ls[i],
    ensures
        lines(join(ls, seq!['\n'])) == (if ls.last().len() == 0 {
            ls.drop_last()
        } else {
            ls
        }),
    decreases ls.len(),
{
    if ls.len() == 1 {
        assert(forall|q: int| 0 <= q < ls[0].len() ==> ls[0][q] != '\n');
        lemma_lines_single(ls[0]);
        if ls[0].len() == 0 {
            assert(ls.drop_last() =~= Seq::<Seq<char>>::empty());
        } else {
            assert(ls =~= seq![ls[0]]);
        }
    } else {
        let rest = ls.drop_first();
        lemma_join_front(ls, seq!['\n']);
        assert forall|i: int, q: int| 0 <= i < rest.len() && 0 <= q < rest[i].len() implies #[trigger] rest[i][q] != '\n' by {
            assert(rest[i] == ls[i + 1]);
        }
        assert forall|i: int| 0 <= i < rest.len() - 1 implies strip_cr(#[trigger] rest[i]) == rest[i] by {
            assert(rest[i] == ls[i + 1]);
        }
        lemma_lines_of_join(rest);
        assert(forall|q: int| 0 <= q < ls[0].len() ==> ls[0][q] != '\n');
        lemma_lines_first(ls[0], join(rest, seq!['\n']));
        assert(strip_cr(ls[0]) == ls[0]);
        if ls.last().len() == 0 {
            assert(seq![ls[0]] + rest.drop_last() =~= ls.drop_last());
        } else {
            assert(seq![ls[0]] + rest =~= ls);
        }
    }
}

/// Executable `str::lines`.
pub fn split_lines(s: &str) -> (r: Vec<String>)
    ensures
        r@.map_values(|l: String| l@) == lines(s@),
{
    let v = chars_of(s);
    let mut out: Vec<String> = Vec::new();
    let mut start: usize = 0;
    let mut i: usize = 0;
    while i < v.len()
        invariant
            start <= i <= v.len(),
            v@ == s@,
            out@.map_values(|l: String| l@) + lines_from(v@, start as int, i as int) == lines(v@),
        decreases v.len() - i,
    {
        if v[i] == '\n' {
            let mut end = i;
            if end > start && v[end - 1] == '\r' {
                end = end - 1;
            }
            let line = string_of_range(&v, start, end);
            proof {
                let whole = v@.subrange(start as int, i as int);
                if i > start && v@[i - 1] == '\r' {
                    assert(whole.drop_last() =~= v@.subrange(start as int, end as int));
                } else {
                    assert(whole =~= v@.subrange(start as int, end as int));
                }
                assert(line@ == strip_cr(whole));
                let ghost before = out@.map_values(|l: String| l@);
                assert(out@.push(line).map_values(|l: String| l@) =~= before.push(line@));
                assert(before.push(line@) + lines_from(v@, i + 1, i + 1) =~= before + (seq![
                    strip_cr(whole)] + lines_from(v@, i + 1, i + 1)));
            }
            out.push(line);
            start = i + 1;
        }
        i += 1;
    }
    if start < v.len() {
        let line = string_of_range(&v, start, v.len());
        proof {
            let ghost before = out@.map_values(|l: String| l@);
            assert(out@.push(line).map_values(|l: String| l@) =~= before.push(line@));
        }
        out.push(line);
    } else {
        assert(out@.map_values(|l: String| l@) + lines_from(v@, start as int, i as int)
            =~= out@.map_values(|l: String| l@));
    }
    out
}

// ───────────────────────────── trimming ────────────────────────────────

/// `char::is_whitespace`: the Unicode `White_Space` property.
pub open spec fn is_ws(c: char) -> bool {
    let u = c as u32;
    (0x09 <= u && u <= 0x0D) || u == 0x20 || u == 0x85 || u == 0xA0 || u == 0x1680 || (0x2000
        <= u && u <= 0x200A) || u == 0x2028 || u == 0x2029 || u == 0x202F || u == 0x205F || u
        == 0x3000
}

/// Executable whitespace test.
pub fn is_whitespace(c: char) -> (r: bool)
    ensures
        r == is_ws(c),
{
    let u = c as u32;
    (0x09 <= u && u <= 0x0D) || u == 0x20 || u == 0x85 || u == 0xA0 || u == 0x1680 || (0x2000
        <= u && u <= 0x200A) || u == 0x2028 || u == 0x2029 || u == 0x202F || u == 0x205F || u
        == 0x3000
}

/// `s` without leading whitespace.
pub open spec fn trim_start(s: Seq<char>) -> Seq<char>
    decreases s.len(),
{
    if s.len() > 0 && is_ws(s[0]) {
        trim_start(s.drop_first())
    } else {
        s
    }
}

/// `s` without trailing whitespace.
pub open spec fn trim_end(s: Seq<char>) -> Seq<char>
    decreases s.len(),
{
    if s.len() > 0 && is_ws(s.last()) {
        trim_end(s.drop_last())
    } else {
        s
    }
}

/// `str::trim`.
pub open spec fn trim(s: Seq<char>) -> Seq<char> {
    trim_end(trim_start(s))
}

/// Index range `[lo, hi)` of `v` that `trim` keeps.
pub fn trim_bounds(v: &Vec<char>) -> (r: (usize, usize))
    ensures
        r.0 <= r.1 <= v.len(),
        v@.subrange(r.0 as int, r.1 as int) == trim(v@),
{
    let mut lo: usize = 0;
    assert(v@.skip(0) =~= v@);
    while lo < v.len() && is_whitespace(v[lo])
        invariant
            lo <= v.len(),
            trim_start(v@) == trim_start(v@.skip(lo as int)),
        decreases v.len() - lo,
    {
        assert(v@.skip(lo as int).drop_first() =~= v@.skip(lo + 1));
        lo += 1;
    }
    assert(trim_start(v@) == v@.skip(lo as int));
    let mut hi: usize = v.len();
    while hi > lo && is_whitespace(v[hi - 1])
        invariant
            lo <= hi <= v.len(),
            trim_end(v@.skip(lo as int)) == trim_end(v@.subrange(lo as int, hi as int)),
        decreases hi,
    {
        assert(v@.subrange(lo as int, hi as int).drop_last() =~= v@.subrange(lo as int, hi - 1));
        hi -= 1;
    }
    assert(v@.skip(lo as int) =~= v@.subrange(lo as int, v.len() as int));
    (lo, hi)
}

/// Executable `str::trim`.
pub fn trimmed(s: &str) -> (r: String)
    ensures
        r@ == trim(s@),
{
    let v = chars_of(s);
    let (lo, hi) = trim_bounds(&v);
    string_of_range(&v, lo, hi)
}

// ─────────────────────────── prefix handling ───────────────────────────

/// `str::trim_start_matches` with a string pattern: every leading copy of
/// `p` removed.
pub open spec fn trim_start_matches(s: Seq<char>, p: Seq<char>) -> Seq<char>
    decreases s.len(),
{
    if p.len() > 0 && starts_with(s, p) {
        trim_start_matches(s.skip(p.len() as int), p)
    } else {
        s
    }
}

/// `str::trim_end_matches` with a string pattern: every trailing copy of
/// `p` removed.
pub open spec fn trim_end_matches(s: Seq<char>, p: Seq<char>) -> Seq<char>
    decreases s.len(),
{
    if p.len() > 0 && ends_with(s, p) {
        trim_end_matches(s.take(s.len() - p.len()), p)
    } else {
        s
    }
}

/// Executable `str::trim_start_matches`.
pub fn strip_leading(s: &str, p: &str) -> (r: String)
    ensures
        r@ == trim_start_matches(s@, p@),
{
    let v = chars_of(s);
    let pv = chars_of(p);
    if pv.len() == 0 {
        return string_of(&v);
    }
    let mut lo: usize = 0;
    assert(v@.skip(0) =~= v@);
    while pv.len() <= v.len() - lo && seq_has_prefix_at(&v, &pv, lo)
        invariant
            lo <= v.len(),
            pv@ == p@,
            pv.len() > 0,
            trim_start_matches(v@, pv@) == trim_start_matches(v@.skip(lo as int), pv@),
        decreases v.len() - lo,
    {
        assert(v@.skip(lo as int).take(pv.len() as int) =~= v@.subrange(lo as int, lo + pv.len()));
        assert(v@.skip(lo as int).skip(pv.len() as int) =~= v@.skip(lo + pv.len()));
        lo += pv.len();
    }
    proof {
        if lo + pv.len() <= v.len() {
            assert(v@.skip(lo as int).take(pv.len() as int) =~= v@.subrange(lo as int, lo + pv.len()));
        }
        assert(v@.skip(lo as int) =~= v@.subrange(lo as int, v.len() as int));
    }
    string_of_range(&v, lo, v.len())
}

/// Executable `str::trim_end_matches`.
pub fn strip_trailing(s: &str, p: &str) -> (r: String)
    ensures
        r@ == trim_end_matches(s@, p@),
{
    let v = chars_of(s);
    let pv = chars_of(p);
    if pv.len() == 0 {
        return string_of(&v);
    }
    let mut hi: usize = v.len();
    assert(v@.take(v.len() as int) =~= v@);
    while hi >= pv.len() && seq_has_prefix_at(&v, &pv, hi - pv.len())
        invariant
            hi <= v.len(),
            pv@ == p@,
            pv.len() > 0,
            trim_end_matches(v@, pv@) == trim_end_matches(v@.take(hi as int), pv@),
        decreases hi,
    {
        assert(v@.take(hi as int).skip(hi - pv.len()) =~= v@.subrange(hi - pv.len(), hi as int));
        assert(v@.take(hi as int).take(hi - pv.len()) =~= v@.take(hi - pv.len()));
        hi -= pv.len();
    }
    proof {
        if hi >= pv.len() {
            assert(v@.take(hi as int).skip(hi - pv.len()) =~= v@.subrange(hi - pv.len(), hi as int));
        }
        assert(v@.take(hi as int) =~= v@.subrange(0, hi as int));
    }
    string_of_range(&v, 0, hi)
}

/// `str::strip_prefix`.
pub open spec fn strip_prefix(s: Seq<char>, p: Seq<char>) -> Option<Seq<char>> {
    if starts_with(s, p) {
        Some(s.skip(p.len() as int))
    } else {
        None
    }
}

/// Executable `str::strip_prefix`.
pub fn without_prefix(s: &str, p: &str) -> (r: Option<String>)
    ensures
        r matches Some(t) ==> strip_prefix(s@, p@) == Some(t@),
        r is None ==> strip_prefix(s@, p@) is None,
{
    let v = chars_of(s);
    let pv = chars_of(p);
    if seq_has_prefix_at(&v, &pv, 0) {
        let t = string_of_range(&v, pv.len(), v.len());
        assert(v@.skip(pv.len() as int) =~= v@.subrange(pv.len() as int, v.len() as int));
        Some(t)
    } else {
        None
    }
}

// ───────────────────────────── splitting ───────────────────────────────

/// `str::split_once`: the parts before and after the first `sep`.
pub open spec fn split_once(s: Seq<char>, sep: Seq<char>) -> Option<(Seq<char>, Seq<char>)> {
    match find(s, sep) {
        Some(k) => Some((s.take(k), s.skip(k + sep.len()))),
        None => None,
    }
}

/// Executable `str::split_once`.
pub fn split_at_first(s: &str, sep: &str) -> (r: Option<(String, String)>)
    ensures
        r matches Some(pair) ==> split_once(s@, sep@) == Some((pair.0@, pair.1@)),
        r is None ==> split_once(s@, sep@) is None,
{
    let v = chars_of(s);
    let pv = chars_of(sep);
    match find_seq_from(&v, &pv, 0) {
        Some(k) => {
            proof {
                lemma_find_from(v@, pv@, 0);
                assert(occurs_at(v@, pv@, k as int));
            }
            let a = string_of_range(&v, 0, k);
            let b = string_of_range(&v, k + pv.len(), v.len());
            assert(v@.take(k as int) =~= v@.subrange(0, k as int));
            assert(v@.skip(k + pv.len()) =~= v@.subrange(k + pv.len(), v.len() as int));
            Some((a, b))
        },
        None => None,
    }
}

/// `str::split` on a set of separator characters: the pieces between
/// separators, empty pieces included (an empty string gives one empty piece).
pub open spec fn split_on(s: Seq<char>, seps: Seq<char>) -> Seq<Seq<char>>
    decreases s.len(),
{
    if s.len() == 0 {
        seq![Seq::empty()]
    } else {
        let init = split_on(s.drop_last(), seps);
        if seps.contains(s.last()) {
            init.push(Seq::empty())
        } else {
            init.update(init.len() - 1, init.last().push(s.last()))
        }
    }
}

/// `split_on` never gives an empty list.
pub proof fn lemma_split_on_nonempty(s: Seq<char>, seps: Seq<char>)
    ensures
        split_on(s, seps).len() >= 1,
    decreases s.len(),
{
    if s.len() > 0 {
        lemma_split_on_nonempty(s.drop_last(), seps);
    }
}

fn char_in(c: char, v: &Vec<char>) -> (r: bool)
    ensures
        r == v@.contains(c),
{
    let mut i: usize = 0;
    while i < v.len()
        invariant
            i <= v.len(),
            forall|k: int| 0 <= k < i ==> v@[k] != c,
        decreases v.len() - i,
    {
        if v[i] == c {
            return true;
        }
        i += 1;
    }
    false
}

/// Executable `split_on`.
pub fn split_chars(s: &str, seps: &str) -> (r: Vec<String>)
    ensures
        views(r@) == split_on(s@, seps@),
{
    let v = chars_of(s);
    let sv = chars_of(seps);
    let mut out: Vec<String> = Vec::new();
    let mut cur: Vec<char> = Vec::new();
    let mut i: usize = 0;
    assert(v@.take(0) =~= Seq::<char>::empty());
    while i < v.len()
        invariant
            i <= v.len(),
            v@ == s@,
            sv@ == seps@,
            views(out@).push(cur@) == split_on(v@.take(i as int), sv@),
        decreases v.len() - i,
    {
        let c = v[i];
        let ghost pre = v@.take(i as int);
        assert(v@.take(i + 1).drop_last() =~= pre);
        assert(v@.take(i + 1).last() == c);
        proof {
            lemma_split_on_nonempty(pre, sv@);
        }
        if char_in(c, &sv) {
            let piece = string_of(&cur);
            out.push(piece);
            cur = Vec::new();
            assert(views(out@).push(cur@) =~= split_on(pre, sv@).push(Seq::empty()));
        } else {
            let ghost before = views(out@).push(cur@);
            cur.push(c);
            assert(views(out@).push(cur@) =~= before.update(before.len() - 1, before.last().push(c)));
        }
        i += 1;
    }
    assert(v@.take(v.len() as int) =~= v@);
    let last = string_of(&cur);
    out.push(last);
    assert(views(out@) =~= split_on(s@, seps@));
    out
}

// ───────────────────────────── replacement ─────────────────────────────

/// `str::replace` with a non-empty pattern: every non-overlapping
/// occurrence of `from`, scanned left to right, replaced by `to`.
pub open spec fn replace(s: Seq<char>, from: Seq<char>, to: Seq<char>) -> Seq<char>
    decreases s.len(),
{
    if from.len() == 0 {
        s
    } else {
        match find(s, from) {
            Some(k) => {
                if 0 <= k && k + from.len() <= s.len() {
                    s.take(k) + to + replace(s.skip(k + from.len()), from, to)
                } else {
                    s
                }
            },
            None => s,
        }
    }
}

/// Executable `str::replace` (the pattern is non-empty).
pub fn replace_all(s: &str, from: &str, to: &str) -> (r: String)
    requires
        from@.len() > 0,
    ensures
        r@ == replace(s@, from@, to@),
{
    let v = chars_of(s);
    let fv = chars_of(from);
    let mut out = String::new();
    let mut pos: usize = 0;
    assert(v@.skip(0) =~= v@);
    assert(out@ + replace(v@, fv@, to@) =~= replace(v@, fv@, to@));
    loop
        invariant
            pos <= v.len(),
            fv@ == from@,
            v@ == s@,
            fv.len() > 0,
            out@ + replace(v@.skip(pos as int), fv@, to@) == replace(v@, fv@, to@),
        decreases v.len() - pos,
    {
        let ghost rest = v@.skip(pos as int);
        match find_seq_from(&v, &fv, pos) {
            Some(k) => {
                proof {
                    lemma_find_from(v@, fv@, pos as int);
                    lemma_find_shift(v@, fv@, pos as int);
                    assert(rest.take(k - pos) =~= v@.subrange(pos as int, k as int));
                    assert(rest.skip(k - pos + fv.len()) =~= v@.skip(k + fv.len()));
                }
                let piece = string_of_range(&v, pos, k);
                out.append(piece.as_str());
                out.append(to);
                pos = k + fv.len();
            },
            None => {
                proof {
                    lemma_find_from(v@, fv@, pos as int);
                    lemma_find_shift(v@, fv@, pos as int);
                    assert(rest =~= v@.subrange(pos as int, v.len() as int));
                }
                let tail = string_of_range(&v, pos, v.len());
                let ghost before = out@;
                out.append(tail.as_str());
                assert(replace(rest, fv@, to@) == rest);
                assert(out@ == before + rest);
                return out;
            },
        }
    }
}

/// Searching `s` from `from` is searching `s.skip(from)` from its start,
/// shifted by `from`.
pub proof fn lemma_find_shift(s: Seq<char>, p: Seq<char>, from: int)
    requires
        0 <= from <= s.len(),
    ensures
        find_from(s, p, from) matches Some(k) ==> find(s.skip(from), p) == Some(k - from),
        find_from(s, p, from) is None ==> find(s.skip(from), p) is None,
{
    lemma_find_from(s, p, from);
    lemma_find_from(s.skip(from), p, 0);
    assert forall|j: int| 0 <= j implies occurs_at(s.skip(from), p, j) == occurs_at(s, p, j + from) by {
        if 0 <= j && j + p.len() <= s.len() - from {
            assert(s.skip(from).subrange(j, j + p.len()) =~= s.subrange(j + from, j + from + p.len()));
        }
    }
    match find_from(s, p, from) {
        Some(k) => {
            match find(s.skip(from), p) {
                Some(k2) => {
                    assert(occurs_at(s, p, k2 + from));
                    assert(occurs_at(s.skip(from), p, k - from));
                },
                None => {
                    assert(occurs_at(s.skip(from), p, k - from));
                },
            }
        },
        None => {
            match find(s.skip(from), p) {
                Some(k2) => {
                    assert(occurs_at(s, p, k2 + from));
                },
                None => {},
            }
        },
    }
}


// ───────────────────────────── joining ─────────────────────────────────

/// The views of a sequence of strings.
pub open spec fn views(v: Seq<String>) -> Seq<Seq<char>> {
    v.map_values(|x: String| x@)
}

/// `v` holds the string `s`.
pub fn list_contains(v: &Vec<String>, s: &str) -> (r: bool)
    ensures
        r == views(v@).contains(s@),
{
    let mut i: usize = 0;
    while i < v.len()
        invariant
            i <= v.len(),
            forall|j: int| 0 <= j < i ==> views(v@)[j] != s@,
        decreases v.len() - i,
    {
        if str_eq(v[i].as_str(), s) {
            assert(views(v@)[i as int] == s@);
            return true;
        }
        i += 1;
    }
    false
}

/// `[String]::join`: the parts with `sep` between consecutive ones.
pub open spec fn join(parts: Seq<Seq<char>>, sep: Seq<char>) -> Seq<char>
    decreases parts.len(),
{
    if parts.len() == 0 {
        seq![]
    } else if parts.len() == 1 {
        parts[0]
    } else {
        join(parts.drop_last(), sep) + sep + parts.last()
    }
}

/// Executable `[String]::join`.
pub fn join_strings(parts: &Vec<String>, sep: &str) -> (r: String)
    ensures
        r@ == join(views(parts@), sep@),
{
    let mut out = String::new();
    let mut i: usize = 0;
    while i < parts.len()
        invariant
            i <= parts.len(),
            out@ == join(views(parts@).take(i as int), sep@),
        decreases parts.len() - i,
    {
        let ghost before = out@;
        if i > 0 {
            out.append(sep);
        }
        out.append(parts[i].as_str());
        proof {
            let t = views(parts@).take(i + 1);
            assert(t.drop_last() =~= views(parts@).take(i as int));
            if i == 0 {
                assert(before =~= Seq::<char>::empty());
                assert(out@ =~= t[0]);
            }
        }
        i += 1;
    }
    assert(views(parts@).take(parts.len() as int) =~= views(parts@));
    out
}

/// The concatenation of text pieces.
pub open spec fn concat(parts: Seq<Seq<char>>) -> Seq<char>
    decreases parts.len(),
{
    if parts.len() == 0 {
        Seq::empty()
    } else {
        concat(parts.drop_last()) + parts.last()
    }
}

/// Executable `concat`.
pub fn concat_strings(pieces: &Vec<String>) -> (r: String)
    ensures
        r@ == concat(views(pieces@)),
{
    let mut r = String::new();
    let mut i: usize = 0;
    while i < pieces.len()
        invariant
            i <= pieces.len(),
            r@ == concat(views(pieces@).take(i as int)),
        decreases pieces.len() - i,
    {
        assert(views(pieces@).take(i + 1).drop_last() =~= views(pieces@).take(i as int));
        push_str(&mut r, pieces[i].as_str());
        i += 1;
    }
    assert(views(pieces@).take(i as int) =~= views(pieces@));
    r
}

// ───────────────────────────── numbers ─────────────────────────────────

/// The character of a decimal digit.
pub open spec fn digit_char(d: nat) -> char {
    ((d + 48) as u8) as char
}

/// The decimal representation of `n` (`usize::to_string`).
pub open spec fn decimal(n: nat) -> Seq<char>
    decreases n,
{
    if n < 10 {
        seq![digit_char(n)]
    } else {
        decimal(n / 10).push(digit_char(n % 10))
    }
}

/// Executable decimal rendering.
pub fn decimal_string(n: usize) -> (r: String)
    ensures
        r@ == decimal(n as nat),
    decreases n,
{
    let d = (n % 10) as u8;
    let c = (d + 48) as char;
    if n < 10 {
        let mut s = String::new();
        push_char(&mut s, c);
        s
    } else {
        let mut s = decimal_string(n / 10);
        push_char(&mut s, c);
        s
    }
}


/// Executable decimal rendering of a `u128`.
pub fn decimal_string_u128(n: u128) -> (r: String)
    ensures
        r@ == decimal(n as nat),
    decreases n,
{
    let d = (n % 10) as u8;
    let c = (d + 48) as char;
    if n < 10 {
        let mut s = String::new();
        push_char(&mut s, c);
        s
    } else {
        let mut s = decimal_string_u128(n / 10);
        push_char(&mut s, c);
        s
    }
}

/// Executable decimal rendering of a `u64`.
pub fn decimal_string_u64(n: u64) -> (r: String)
    ensures
        r@ == decimal(n as nat),
    decreases n,
{
    let d = (n % 10) as u8;
    let c = (d + 48) as char;
    if n < 10 {
        let mut s = String::new();
        push_char(&mut s, c);
        s
    } else {
        let mut s = decimal_string_u64(n / 10);
        push_char(&mut s, c);
        s
    }
}

/// The value of a decimal digit character.
pub open spec fn digit_value(c: char) -> int {
    c as int - 48
}

/// `c` is an ASCII decimal digit.
pub open spec fn is_digit(c: char) -> bool {
    '0' <= c && c <= '9'
}

/// The number that a sequence of decimal digits denotes.
pub open spec fn digits_value(s: Seq<char>) -> nat
    decreases s.len(),
{
    if s.len() == 0 {
        0
    } else {
        (digits_value(s.drop_last()) * 10 + digit_value(s.last())) as nat
    }
}

/// A string of one or more decimal digits.
pub open spec fn all_digits(d: Seq<char>) -> bool {
    d.len() > 0 && forall|i: int| 0 <= i < d.len() ==> is_digit(#[trigger] d[i])
}

/// `s` without one leading `+`.
pub open spec fn sign_stripped(s: Seq<char>) -> Seq<char> {
    if s.len() > 0 && s[0] == '+' {
        s.drop_first()
    } else {
        s
    }
}

/// The digits of an unsigned integer literal as `usize::from_str` reads
/// it: an optional leading `+`, then one or more decimal digits.
pub open spec fn unsigned_digits(s: Seq<char>) -> Option<Seq<char>> {
    if all_digits(sign_stripped(s)) {
        Some(sign_stripped(s))
    } else {
        None
    }
}

/// `usize::from_str`: the value, when the text is a literal whose value
/// fits.
pub open spec fn parse_usize_spec(s: Seq<char>) -> Option<nat> {
    match unsigned_digits(s) {
        Some(d) => if digits_value(d) <= usize::MAX {
            Some(digits_value(d))
        } else {
            None
        },
        None => None,
    }
}

/// The decimal representation of `n` is a string of digits that denotes
/// `n`.
pub proof fn lemma_decimal_digits(n: nat)
    ensures
        all_digits(decimal(n)),
        digits_value(decimal(n)) == n,
    decreases n,
{
    let c = digit_char(n % 10);
    assert(digit_value(c) == n % 10);
    assert(is_digit(c));
    if n >= 10 {
        lemma_decimal_digits(n / 10);
        let d = decimal(n / 10);
        let e = d.push(c);
        assert(e.drop_last() =~= d);
        assert((n / 10) * 10 + n % 10 == n) by (nonlinear_arith);
        assert(digits_value(e) == digits_value(d) * 10 + digit_value(c));
        assert(decimal(n) == e);
        assert forall|i: int| 0 <= i < e.len() implies is_digit(#[trigger] e[i]) by {
            if i < d.len() {
                assert(e[i] == d[i]);
            }
        }
    } else {
        assert(decimal(n) =~= seq![c]);
        assert(decimal(n).drop_last() =~= Seq::<char>::empty());
        assert(digits_value(decimal(n)) == digits_value(Seq::<char>::empty()) * 10 + digit_value(c));
        assert(n % 10 == n);
    }
}

proof fn lemma_digits_value_mono(s: Seq<char>, i: int)
    requires
        0 <= i <= s.len(),
        forall|j: int| 0 <= j < s.len() ==> is_digit(#[trigger] s[j]),
    ensures
        digits_value(s.take(i)) <= digits_value(s),
    decreases s.len() - i,
{
    if i < s.len() {
        lemma_digits_value_mono(s, i + 1);
        assert(s.take(i + 1).drop_last() =~= s.take(i));
        assert(digits_value(s.take(i + 1)) == digits_value(s.take(i)) * 10 + digit_value(s[i]));
        assert(digits_value(s.take(i)) <= digits_value(s.take(i + 1))) by (nonlinear_arith)
            requires
                digits_value(s.take(i + 1)) == digits_value(s.take(i)) * 10 + digit_value(s[i]),
                digit_value(s[i]) >= 0,
        ;
    } else {
        assert(s.take(i) =~= s);
    }
}

proof fn lemma_overflow_none(s: Seq<char>, d: Seq<char>, k: int)
    requires
        unsigned_digits(s) is Some ==> unsigned_digits(s) == Some(d),
        0 < k <= d.len(),
        forall|j: int| 0 <= j < k ==> is_digit(#[trigger] d[j]),
        digits_value(d.take(k)) > usize::MAX,
    ensures
        parse_usize_spec(s) is None,
{
    if unsigned_digits(s) is Some {
        assert(all_digits(d));
        lemma_digits_value_mono(d, k);
    }
}

/// Executable `usize::from_str`.
pub fn parse_usize(s: &str) -> (r: Option<usize>)
    ensures
        r matches Some(n) ==> parse_usize_spec(s@) == Some(n as nat),
        r is None ==> parse_usize_spec(s@) is None,
{
    let v = chars_of(s);
    let mut i: usize = 0;
    if v.len() > 0 && v[0] == '+' {
        i = 1;
    }
    let ghost d = sign_stripped(v@);
    assert(d =~= v@.skip(i as int));
    if i >= v.len() {
        return None;
    }
    let start = i;
    let mut acc: usize = 0;
    assert(v@.subrange(start as int, start as int) =~= Seq::<char>::empty());
    while i < v.len()
        invariant
            start <= i <= v.len(),
            start < v.len(),
            v@ == s@,
            d == v@.skip(start as int),
            d == sign_stripped(v@),
            forall|j: int| start <= j < i ==> is_digit(#[trigger] v@[j]),
            acc as nat == digits_value(v@.subrange(start as int, i as int)),
        decreases v.len() - i,
    {
        let c = v[i];
        proof {
            assert(v@.subrange(start as int, i + 1).drop_last() =~= v@.subrange(start as int, i as int));
            assert(d.take(i + 1 - start) =~= v@.subrange(start as int, i + 1));
            assert(d[i - start] == c);
            assert forall|j: int| 0 <= j < i - start implies is_digit(#[trigger] d[j]) by {
                assert(d[j] == v@[start + j]);
            }
        }
        if c < '0' || c > '9' {
            proof {
                assert(!is_digit(d[i - start]));
                if unsigned_digits(s@) is Some {
                    assert(all_digits(d));
                    assert(is_digit(d[i - start]));
                }
            }
            return None;
        }
        let dv = (c as u32 - 48) as usize;
        proof {
            assert forall|j: int| 0 <= j < i + 1 - start implies is_digit(#[trigger] d[j]) by {
                assert(d[j] == v@[start + j]);
            }
        }
        match acc.checked_mul(10) {
            Some(m) => match m.checked_add(dv) {
                Some(n) => {
                    acc = n;
                },
                None => {
                    proof {
                        lemma_overflow_none(s@, d, i + 1 - start);
                    }
                    return None;
                },
            },
            None => {
                proof {
                    assert(digits_value(d.take(i + 1 - start)) == acc * 10 + digit_value(c));
                    lemma_overflow_none(s@, d, i + 1 - start);
                }
                return None;
            },
        }
        i += 1;
    }
    assert(v@.subrange(start as int, v.len() as int) =~= d);
    Some(acc)
}


// ───────────────────────────── building ────────────────────────────────

/// Appends a line to a list of lines.
pub fn push_line(lines: &mut Vec<String>, s: String)
    ensures
        views(final(lines)@) == views(old(lines)@).push(s@),
{
    lines.push(s);
    assert(views(lines@) =~= views(old(lines)@).push(s@));
}

/// `a` followed by `b`.
pub fn cat(a: &str, b: &str) -> (r: String)
    ensures
        r@ == a@ + b@,
{
    let mut r = owned(a);
    push_str(&mut r, b);
    r
}

/// `a`, `b` and `c` in order.
pub fn cat3(a: &str, b: &str, c: &str) -> (r: String)
    ensures
        r@ == a@ + b@ + c@,
{
    let mut r = owned(a);
    push_str(&mut r, b);
    push_str(&mut r, c);
    r
}

/// `a`, `b`, `c`, `d` and `e` in order.
pub fn cat5(a: &str, b: &str, c: &str, d: &str, e: &str) -> (r: String)
    ensures
        r@ == a@ + b@ + c@ + d@ + e@,
{
    let mut r = owned(a);
    push_str(&mut r, b);
    push_str(&mut r, c);
    push_str(&mut r, d);
    push_str(&mut r, e);
    r
}

} // verus!
