//! The few operations on text that file names need, over characters.

use vstd::prelude::*;

verus! {

/// `String::push` appends one character.
pub assume_specification[ String::push ](s: &mut String, c: char)
    ensures
        final(s)@ == old(s)@.push(c),
;

/// `s` with every match of `pat` replaced by `to`, matches taken from the
/// left and never overlapping. An empty `pat` matches nowhere.
pub open spec fn replace_all(s: Seq<char>, pat: Seq<char>, to: Seq<char>) -> Seq<char>
    decreases s.len(),
{
    if pat.len() == 0 || s.len() < pat.len() {
        s
    } else if s.subrange(0, pat.len() as int) == pat {
        to + replace_all(s.skip(pat.len() as int), pat, to)
    } else {
        seq![s[0]] + replace_all(s.skip(1), pat, to)
    }
}

/// What follows the last `/` of `s`; all of `s` if it holds none.
pub open spec fn last_segment(s: Seq<char>) -> Seq<char>
    decreases s.len(),
{
    if s.len() == 0 || s.last() == '/' {
        Seq::empty()
    } else {
        last_segment(s.drop_last()).push(s.last())
    }
}

/// Whether `s` ends with a `/`.
pub open spec fn ends_with_separator(s: Seq<char>) -> bool {
    s.len() > 0 && s.last() == '/'
}

/// The characters of `s`, one by one.
pub fn chars_of(s: &str) -> (v: Vec<char>)
    ensures
        v@ == s@,
{
    let n: usize = s.unicode_len();
    let mut v: Vec<char> = Vec::new();
    let mut i: usize = 0;
    while i < n
        invariant
            n == s@.len(),
            i <= n,
            v@ == s@.take(i as int),
        decreases n - i,
    {
        v.push(s.get_char(i));
        i += 1;
    }
    v
}

/// The string made of the characters `v[from..to]`.
pub fn string_of(v: &Vec<char>, from: usize, to: usize) -> (s: String)
    requires
        from <= to <= v.len(),
    ensures
        s@ == v@.subrange(from as int, to as int),
{
    let mut s = String::new();
    let mut i: usize = from;
    while i < to
        invariant
            from <= i <= to <= v.len(),
            s@ == v@.subrange(from as int, i as int),
        decreases to - i,
    {
        s.push(v[i]);
        i += 1;
    }
    s
}

/// Whether `pat` stands in `s` at position `at`.
fn matches_at(s: &Vec<char>, at: usize, pat: &Vec<char>) -> (b: bool)
    requires
        at <= s.len(),
    ensures
        b == (at + pat.len() <= s.len() && s@.subrange(at as int, at + pat.len()) == pat@),
{
    if pat.len() > s.len() - at {
        return false;
    }
    let mut j: usize = 0;
    while j < pat.len()
        invariant
            at + pat.len() <= s.len(),
            j <= pat.len(),
            s@.subrange(at as int, at + j) == pat@.take(j as int),
        decreases pat.len() - j,
    {
        if s[at + j] != pat[j] {
            assert(s@.subrange(at as int, at + pat.len())[j as int] != pat@[j as int]);
            return false;
        }
        assert(s@.subrange(at as int, at + j + 1) == s@.subrange(at as int, at + j).push(
            s@[at + j],
        ));
        assert(pat@.take(j + 1) == pat@.take(j as int).push(pat@[j as int]));
        j += 1;
    }
    assert(pat@.take(pat.len() as int) == pat@);
    true
}

/// Whether the text ends with a `/`.
pub fn has_trailing_separator(s: &str) -> (b: bool)
    ensures
        b == ends_with_separator(s@),
{
    let n: usize = s.unicode_len();
    n > 0 && s.get_char(n - 1) == '/'
}

/// `s` with every match of `pat` replaced by `to`.
pub fn replace(s: &str, pat: &str, to: &str) -> (out: String)
    ensures
        out@ == replace_all(s@, pat@, to@),
{
    let sv = chars_of(s);
    let pv = chars_of(pat);
    let tv = chars_of(to);
    if pv.len() == 0 {
        assert(sv@.subrange(0, sv.len() as int) == sv@);
        return string_of(&sv, 0, sv.len());
    }
    let mut out: Vec<char> = Vec::new();
    let mut i: usize = 0;
    assert(sv@.skip(0) == sv@);
    while i < sv.len()
        invariant
            i <= sv.len(),
            pv.len() > 0,
            replace_all(sv@, pv@, tv@) == out@ + replace_all(sv@.skip(i as int), pv@, tv@),
        decreases sv.len() - i,
    {
        let ghost rest = sv@.skip(i as int);
        let ghost before = out@;
        assert(rest.len() == sv.len() - i);
        if matches_at(&sv, i, &pv) {
            assert(rest.subrange(0, pv.len() as int) == sv@.subrange(i as int, i + pv.len()));
            assert(rest.skip(pv.len() as int) == sv@.skip(i + pv.len()));
            let mut k: usize = 0;
            while k < tv.len()
                invariant
                    k <= tv.len(),
                    out@ == before + tv@.take(k as int),
                decreases tv.len() - k,
            {
                out.push(tv[k]);
                assert(tv@.take(k + 1) == tv@.take(k as int).push(tv@[k as int]));
                k += 1;
            }
            assert(tv@.take(tv.len() as int) == tv@);
            assert(out@ + replace_all(sv@.skip(i + pv.len()), pv@, tv@) == before + (tv@
                + replace_all(rest.skip(pv.len() as int), pv@, tv@)));
            i += pv.len();
        } else {
            proof {
                if rest.len() >= pv@.len() {
                assert(rest.subrange(0, pv.len() as int) == sv@.subrange(i as int, i + pv.len()));
            } else {
                assert(replace_all(rest.skip(1), pv@, tv@) == rest.skip(1));
                    assert(rest == seq![rest[0]] + rest.skip(1));
                }
            }
            assert(rest.skip(1) == sv@.skip(i + 1));
            out.push(sv[i]);
            assert(out@ + replace_all(sv@.skip(i + 1), pv@, tv@) == before + (seq![rest[0]]
                + replace_all(rest.skip(1), pv@, tv@)));
            i += 1;
        }
    }
    assert(out@.subrange(0, out.len() as int) == out@);
    string_of(&out, 0, out.len())
}

/// What follows the last `/` of `path`; all of it if it holds none.
pub fn final_segment(path: &str) -> (name: String)
    ensures
        name@ == last_segment(path@),
{
    let pv = chars_of(path);
    let mut start: usize = pv.len();
    assert(pv@.take(pv.len() as int) == pv@);
    assert(pv@.skip(pv.len() as int) == Seq::<char>::empty());
    while start > 0 && pv[start - 1] != '/'
        invariant
            start <= pv.len(),
            last_segment(pv@) == last_segment(pv@.take(start as int)) + pv@.skip(start as int),
        decreases start,
    {
        let ghost head = pv@.take(start as int);
        assert(head.drop_last() == pv@.take(start - 1));
        assert(last_segment(head) == last_segment(head.drop_last()).push(head.last()));
        assert(pv@.skip(start - 1) == seq![pv@[start - 1]] + pv@.skip(start as int));
        assert(last_segment(head.drop_last()).push(head.last()) + pv@.skip(start as int)
            == last_segment(head.drop_last()) + pv@.skip(start - 1));
        start -= 1;
    }
    assert(last_segment(pv@.take(start as int)) == Seq::<char>::empty());
    string_of(&pv, start, pv.len())
}

} // verus!
