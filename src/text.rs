//! Character-level helpers: splitting text into fields and lines.
use vstd::prelude::*;

verus! {

/// Relies on `String::push`: the character is appended at the end.
pub assume_specification[ String::push ](s: &mut String, ch: char)
    ensures
        final(s)@ == old(s)@.push(ch),
;

/// The pieces of `s` between occurrences of `d`, in order; there is always
/// one more piece than there are delimiters.
pub open spec fn split_on(s: Seq<char>, d: char) -> Seq<Seq<char>>
    decreases s.len(),
{
    if s.len() == 0 {
        seq![Seq::<char>::empty()]
    } else {
        let rest = split_on(s.drop_last(), d);
        if s.last() == d {
            rest.push(Seq::<char>::empty())
        } else {
            rest.update(rest.len() - 1, rest.last().push(s.last()))
        }
    }
}

/// A line with one trailing carriage return removed.
pub open spec fn strip_cr(l: Seq<char>) -> Seq<char> {
    if l.len() > 0 && l.last() == '\r' {
        l.drop_last()
    } else {
        l
    }
}

/// The non-empty members of `ls`, in order.
pub open spec fn keep_nonempty(ls: Seq<Seq<char>>) -> Seq<Seq<char>>
    decreases ls.len(),
{
    if ls.len() == 0 {
        Seq::empty()
    } else {
        let r = keep_nonempty(ls.drop_last());
        if strip_cr(ls.last()).len() > 0 {
            r.push(strip_cr(ls.last()))
        } else {
            r
        }
    }
}

/// The non-empty lines of `s`, each without its line terminator.
pub open spec fn nonempty_lines(s: Seq<char>) -> Seq<Seq<char>> {
    keep_nonempty(split_on(s, '\n'))
}

/// The characters of `s`, in order.
pub fn chars_of(s: &str) -> (r: Vec<char>)
    ensures
        r@ == s@,
{
    let mut r: Vec<char> = Vec::new();
    for c in it: s.chars()
        invariant
            r@ == it.seq().take(it.index() as int),
    {
        r.push(c);
    }
    r
}

/// The characters of `v` as a string.
pub fn string_of(v: &Vec<char>) -> (r: String)
    ensures
        r@ == v@,
{
    let mut r = String::new();
    let mut i: usize = 0;
    while i < v.len()
        invariant
            i <= v.len(),
            r@ == v@.take(i as int),
        decreases v.len() - i,
    {
        r.push(v[i]);
        i = i + 1;
        assert(r@ =~= v@.take(i as int));
    }
    assert(v@.take(i as int) =~= v@);
    r
}

/// Splits `s` at every occurrence of `d`.
pub fn split_chars(s: &Vec<char>, d: char) -> (r: Vec<Vec<char>>)
    ensures
        r.len() == split_on(s@, d).len(),
        forall|j: int| 0 <= j < r.len() ==> #[trigger] r[j]@ == split_on(s@, d)[j],
{
    let mut done: Vec<Vec<char>> = Vec::new();
    let mut cur: Vec<char> = Vec::new();
    let mut i: usize = 0;
    assert(s@.take(0) =~= Seq::<char>::empty());
    while i < s.len()
        invariant
            i <= s.len(),
            split_on(s@.take(i as int), d).len() == done.len() + 1,
            forall|j: int| 0 <= j < done.len() ==> #[trigger] done[j]@ == split_on(s@.take(i as int), d)[j],
            split_on(s@.take(i as int), d)[done.len() as int] == cur@,
        decreases s.len() - i,
    {
        let c = s[i];
        proof {
            let t = s@.take(i as int + 1);
            assert(t.drop_last() =~= s@.take(i as int));
            assert(t.last() == c);
        }
        if c == d {
            done.push(cur);
            cur = Vec::new();
        } else {
            cur.push(c);
        }
        i = i + 1;
    }
    assert(s@.take(i as int) =~= s@);
    done.push(cur);
    done
}

/// The non-empty lines of `s`, each without its line terminator.
pub fn lines_of(s: &str) -> (r: Vec<Vec<char>>)
    ensures
        r.len() == nonempty_lines(s@).len(),
        forall|j: int| 0 <= j < r.len() ==> #[trigger] r[j]@ == nonempty_lines(s@)[j],
{
    let cs = chars_of(s);
    let mut pieces = split_chars(&cs, '\n');
    let ghost all = split_on(s@, '\n');
    let mut r: Vec<Vec<char>> = Vec::new();
    let mut k: usize = 0;
    while k < pieces.len()
        invariant
            k <= pieces.len(),
            pieces.len() == all.len(),
            forall|j: int| 0 <= j < pieces.len() ==> #[trigger] pieces[j]@ == all[j],
            r.len() == keep_nonempty(all.take(k as int)).len(),
            forall|j: int| 0 <= j < r.len() ==> #[trigger] r[j]@ == keep_nonempty(all.take(k as int))[j],
        decreases pieces.len() - k,
    {
        let mut l = pieces[k].clone();
        proof {
            assert(all.take(k as int + 1).drop_last() =~= all.take(k as int));
        }
        let n = l.len();
        if n > 0 && l[n - 1] == '\r' {
            l.pop();
            assert(l@ =~= strip_cr(all[k as int]));
        } else {
            assert(l@ =~= strip_cr(all[k as int]));
        }
        if l.len() > 0 {
            r.push(l);
        }
        k = k + 1;
    }
    assert(all.take(k as int) =~= all);
    r
}

} // verus!
