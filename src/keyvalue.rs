//! `KEY=VALUE` text, one pair per line, as in the status file and in sysfs
//! `uevent` files: a later line for a key overrides an earlier one.

use vstd::prelude::*;
use crate::text::{trim, trim_bounds};

verus! {

/// Position of the first `c` in `s`, or the length of `s` where there is none.
pub open spec fn index_of(s: Seq<char>, c: char) -> nat
    decreases s.len(),
{
    if s.len() == 0 {
        0
    } else if s[0] == c {
        0
    } else {
        1 + index_of(s.drop_first(), c)
    }
}

/// A line that ended in a line feed loses one carriage return before it.
pub open spec fn strip_cr(l: Seq<char>) -> Seq<char> {
    if l.len() > 0 && l.last() == '\r' {
        l.drop_last()
    } else {
        l
    }
}

/// The lines of `s`: split at line feeds (a carriage return before a line feed is
/// part of the line ending); a final line feed starts no further line.
pub open spec fn lines(s: Seq<char>) -> Seq<Seq<char>>
    decreases s.len(),
{
    if s.len() == 0 {
        Seq::empty()
    } else {
        let k = index_of(s, '\n');
        if k >= s.len() {
            seq![s]
        } else {
            seq![strip_cr(s.subrange(0, k as int))] + lines(s.subrange(k + 1 as int, s.len() as int))
        }
    }
}

/// The pair of one line: split at its first `=`, both sides trimmed; a line
/// without `=` has none.
pub open spec fn line_pair(l: Seq<char>) -> Seq<(Seq<char>, Seq<char>)> {
    let i = index_of(l, '=');
    if i >= l.len() {
        Seq::empty()
    } else {
        seq![(trim(l.subrange(0, i as int)), trim(l.subrange(i + 1 as int, l.len() as int)))]
    }
}

pub open spec fn pairs_of_lines(ls: Seq<Seq<char>>) -> Seq<(Seq<char>, Seq<char>)>
    decreases ls.len(),
{
    if ls.len() == 0 {
        Seq::empty()
    } else {
        line_pair(ls[0]) + pairs_of_lines(ls.drop_first())
    }
}

/// The pairs of a text, in order.
pub open spec fn key_values(s: Seq<char>) -> Seq<(Seq<char>, Seq<char>)> {
    pairs_of_lines(lines(s))
}

/// The value of the last pair with the given key.
pub open spec fn lookup(pairs: Seq<(Seq<char>, Seq<char>)>, key: Seq<char>) -> Option<Seq<char>>
    decreases pairs.len(),
{
    if pairs.len() == 0 {
        None
    } else if pairs.last().0 == key {
        Some(pairs.last().1)
    } else {
        lookup(pairs.drop_last(), key)
    }
}

pub open spec fn pair_views(v: Seq<(String, String)>) -> Seq<(Seq<char>, Seq<char>)> {
    v.map_values(|p: (String, String)| (p.0@, p.1@))
}

proof fn lemma_index_of(s: Seq<char>, c: char, k: int)
    requires
        0 <= k <= s.len(),
        forall|j: int| 0 <= j < k ==> s[j] != c,
        k < s.len() ==> s[k] == c,
    ensures
        index_of(s, c) == k,
    decreases k,
{
    if k > 0 {
        assert forall|j: int| 0 <= j < k - 1 implies s.drop_first()[j] != c by {
            assert(s.drop_first()[j] == s[j + 1]);
        }
        lemma_index_of(s.drop_first(), c, k - 1);
    }
}

proof fn lemma_pairs_cons(l: Seq<char>, rest: Seq<Seq<char>>)
    ensures
        pairs_of_lines(seq![l] + rest) == line_pair(l) + pairs_of_lines(rest),
{
    assert((seq![l] + rest).drop_first() =~= rest);
    assert((seq![l] + rest)[0] == l);
}

/// The pair of one line, as a sequence of zero or one pairs.
fn pair_of_line(l: &str) -> (r: Vec<(String, String)>)
    ensures
        pair_views(r@) == line_pair(l@),
{
    let n = l.unicode_len();
    let mut i: usize = 0;
    while i < n && l.get_char(i) != '='
        invariant
            n == l@.len(),
            i <= n,
            forall|j: int| 0 <= j < i ==> l@[j] != '=',
        decreases n - i,
    {
        i = i + 1;
    }
    proof {
        lemma_index_of(l@, '=', i as int);
    }
    let mut out: Vec<(String, String)> = Vec::new();
    if i < n {
        let k = l.substring_char(0, i);
        let v = l.substring_char(i + 1, n);
        let (klo, khi) = trim_bounds(k);
        let (vlo, vhi) = trim_bounds(v);
        let key = String::from_str(k.substring_char(klo, khi));
        let value = String::from_str(v.substring_char(vlo, vhi));
        out.push((key, value));
    }
    assert(pair_views(out@) =~= line_pair(l@));
    out
}

/// Reads the pairs of a `KEY=VALUE` text, in order.
pub fn parse_key_values(contents: &str) -> (r: Vec<(String, String)>)
    ensures
        pair_views(r@) == key_values(contents@),
{
    let ghost s = contents@;
    let n = contents.unicode_len();
    let mut out: Vec<(String, String)> = Vec::new();
    let mut start: usize = 0;
    let mut i: usize = 0;
    assert(s.subrange(0, n as int) =~= s);
    while i < n
        invariant
            s == contents@,
            n == s.len(),
            start <= i <= n,
            forall|j: int| start <= j < i ==> s[j] != '\n',
            key_values(s) == pair_views(out@) + pairs_of_lines(lines(s.subrange(start as int, n as int))),
        decreases n - i,
    {
        if contents.get_char(i) == '\n' {
            let ghost sub = s.subrange(start as int, n as int);
            proof {
                assert forall|j: int| 0 <= j < i - start implies sub[j] != '\n' by {
                    assert(sub[j] == s[start + j]);
                }
                lemma_index_of(sub, '\n', i - start);
                assert(sub.subrange(0, i - start) =~= s.subrange(start as int, i as int));
                assert(sub.subrange(i - start + 1, sub.len() as int) =~= s.subrange(i + 1, n as int));
                lemma_pairs_cons(strip_cr(s.subrange(start as int, i as int)), lines(s.subrange(i + 1, n as int)));
            }
            let mut e = i;
            if e > start && contents.get_char(e - 1) == '\r' {
                e = e - 1;
            }
            let line = contents.substring_char(start, e);
            assert(line@ == strip_cr(s.subrange(start as int, i as int)));
            let ghost before = out@;
            let mut p = pair_of_line(line);
            out.append(&mut p);
            assert(pair_views(out@) =~= pair_views(before) + line_pair(line@));
            start = i + 1;
        }
        i = i + 1;
    }
    if start < n {
        let ghost sub = s.subrange(start as int, n as int);
        proof {
            assert forall|j: int| 0 <= j < n - start implies sub[j] != '\n' by {
                assert(sub[j] == s[start + j]);
            }
            lemma_index_of(sub, '\n', n - start);
            lemma_pairs_cons(sub, Seq::empty());
            assert(seq![sub] + Seq::<Seq<char>>::empty() =~= seq![sub]);
            assert(pairs_of_lines(Seq::<Seq<char>>::empty()) =~= Seq::empty());
        }
        let line = contents.substring_char(start, n);
        let ghost before = out@;
        let mut p = pair_of_line(line);
        out.append(&mut p);
        assert(pair_views(out@) =~= pair_views(before) + line_pair(line@));
        assert(line_pair(line@) + Seq::empty() =~= line_pair(line@));
    } else {
        assert(s.subrange(start as int, n as int) =~= Seq::<char>::empty());
        assert(pair_views(out@) + Seq::empty() =~= pair_views(out@));
    }
    out
}

/// The value of the last pair whose key is `key`.
pub fn lookup_value(pairs: &Vec<(String, String)>, key: &str) -> (r: Option<String>)
    ensures
        match r {
            Some(v) => lookup(pair_views(pairs@), key@) == Some(v@),
            None => lookup(pair_views(pairs@), key@) is None,
        },
{
    let mut i: usize = pairs.len();
    assert(pairs@.subrange(0, i as int) =~= pairs@);
    while i > 0
        invariant
            i <= pairs@.len(),
            lookup(pair_views(pairs@), key@) == lookup(pair_views(pairs@.subrange(0, i as int)), key@),
        decreases i,
    {
        let ghost pre = pair_views(pairs@.subrange(0, i as int));
        assert(pre.last() == (pairs@[i - 1].0@, pairs@[i - 1].1@));
        assert(pre.drop_last() =~= pair_views(pairs@.subrange(0, i - 1)));
        if crate::text::same_text(pairs[i - 1].0.as_str(), key) {
            return Some(pairs[i - 1].1.clone());
        }
        i = i - 1;
    }
    None
}

} // verus!
