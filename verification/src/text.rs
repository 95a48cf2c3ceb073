//! Lines of a text, split as `str::lines` splits them.

use vstd::prelude::*;

verus! {

/// `t` without one trailing carriage return.
pub open spec fn strip_cr(t: Seq<char>) -> Seq<char> {
    if t.len() > 0 && t.last() == '\r' {
        t.drop_last()
    } else {
        t
    }
}

/// The index of the first line feed in `s`, or the length of `s` where it
/// has none.
pub open spec fn first_newline(s: Seq<char>) -> nat
    decreases s.len(),
{
    if s.len() == 0 {
        0
    } else if s[0] == '\n' {
        0
    } else {
        1 + first_newline(s.drop_first())
    }
}

/// The lines of `s`: split at each line feed, a carriage return before a
/// line feed dropped with it, and no empty last line after a final line feed.
pub open spec fn lines(s: Seq<char>) -> Seq<Seq<char>>
    decreases s.len(),
{
    if s.len() == 0 {
        seq![]
    } else {
        let k = first_newline(s);
        if k >= s.len() {
            seq![s]
        } else {
            seq![strip_cr(s.subrange(0, k as int))] + lines(s.subrange(k as int + 1, s.len() as int))
        }
    }
}

/// The lines `ls`, each after `prefix`, joined by line feeds.
pub open spec fn prefixed(ls: Seq<Seq<char>>, prefix: Seq<char>) -> Seq<char>
    decreases ls.len(),
{
    if ls.len() == 0 {
        seq![]
    } else if ls.len() == 1 {
        prefix + ls[0]
    } else {
        prefixed(ls.drop_last(), prefix) + seq!['\n'] + prefix + ls.last()
    }
}

proof fn lemma_first_newline(s: Seq<char>)
    ensures
        first_newline(s) <= s.len(),
        forall|j: int| 0 <= j < first_newline(s) ==> s[j] != '\n',
        first_newline(s) < s.len() ==> s[first_newline(s) as int] == '\n',
    decreases s.len(),
{
    if s.len() > 0 && s[0] != '\n' {
        lemma_first_newline(s.drop_first());
        assert forall|j: int| 0 <= j < first_newline(s) implies s[j] != '\n' by {
            if j > 0 {
                assert(s[j] == s.drop_first()[j - 1]);
            }
        }
    }
}

/// Where `s` has no line feed before `k` and one at `k`, or none at all and
/// `k` is its length, the first line feed is at `k`.
proof fn lemma_first_newline_at(s: Seq<char>, k: int)
    requires
        0 <= k <= s.len(),
        forall|j: int| 0 <= j < k ==> s[j] != '\n',
        k < s.len() ==> s[k] == '\n',
    ensures
        first_newline(s) == k,
    decreases s.len(),
{
    if s.len() > 0 && k > 0 {
        assert forall|j: int| 0 <= j < k - 1 implies s.drop_first()[j] != '\n' by {
            assert(s.drop_first()[j] == s[j + 1]);
        }
        lemma_first_newline_at(s.drop_first(), k - 1);
    }
}

/// The lines of a text that ends with a line feed, followed by more text,
/// are its lines followed by those of the rest.
proof fn lemma_lines_concat(p: Seq<char>, q: Seq<char>)
    requires
        p.len() == 0 || p.last() == '\n',
    ensures
        lines(p + q) == lines(p) + lines(q),
    decreases p.len(),
{
    if p.len() == 0 {
        assert(p + q =~= q);
        assert(lines(p) =~= Seq::<Seq<char>>::empty());
        assert(lines(p) + lines(q) =~= lines(q));
    } else {
        lemma_first_newline(p);
        let k = first_newline(p) as int;
        assert(k < p.len()) by {
            if k == p.len() {
                assert(p[p.len() - 1] != '\n');
            }
        }
        let pq = p + q;
        lemma_first_newline_at(pq, k);
        assert(pq.subrange(0, k) =~= p.subrange(0, k));
        let rest = p.subrange(k + 1, p.len() as int);
        assert(pq.subrange(k + 1, pq.len() as int) =~= rest + q);
        assert(rest.len() == 0 || rest.last() == '\n');
        lemma_lines_concat(rest, q);
        assert(lines(p) == seq![strip_cr(p.subrange(0, k))] + lines(rest));
        assert(lines(pq) == seq![strip_cr(pq.subrange(0, k))] + lines(rest + q));
        assert(lines(pq) =~= lines(p) + lines(q));
    }
}

/// A text without line feeds is one line, kept whole; followed by a line
/// feed, it is one line without a trailing carriage return.
proof fn lemma_single_line(t: Seq<char>)
    requires
        forall|j: int| 0 <= j < t.len() ==> t[j] != '\n',
    ensures
        t.len() > 0 ==> lines(t) == seq![t],
        lines(t + seq!['\n']) == seq![strip_cr(t)],
{
    lemma_first_newline_at(t, t.len() as int);
    let u = t + seq!['\n'];
    assert forall|j: int| 0 <= j < t.len() implies u[j] != '\n' by {
        assert(u[j] == t[j]);
    }
    lemma_first_newline_at(u, t.len() as int);
    assert(u.subrange(0, t.len() as int) =~= t);
    assert(u.subrange(t.len() as int + 1, u.len() as int) =~= Seq::<char>::empty());
    assert(lines(u.subrange(t.len() as int + 1, u.len() as int)) =~= Seq::<Seq<char>>::empty());
    assert(lines(u) =~= seq![strip_cr(t)]);
}

/// Adding a line to the end of the joined text.
proof fn lemma_prefixed_push(ls: Seq<Seq<char>>, x: Seq<char>, prefix: Seq<char>)
    ensures
        prefixed(ls.push(x), prefix) == if ls.len() == 0 {
            prefix + x
        } else {
            prefixed(ls, prefix) + seq!['\n'] + prefix + x
        },
{
    assert(ls.push(x).drop_last() =~= ls);
    if ls.len() == 0 {
        assert(ls.push(x)[0] == x);
    }
}

/// The lines of `s`, each after `prefix`, joined by line feeds.
pub fn prefix_lines(s: &str, prefix: &str) -> (r: String)
    ensures
        r@ == prefixed(lines(s@), prefix@),
{
    let n = s.unicode_len();
    let mut out = String::new();
    let mut start: usize = 0;
    let mut any_line = false;
    let mut i: usize = 0;
    assert(lines(s@.subrange(0, 0)) =~= Seq::<Seq<char>>::empty());
    while i < n
        invariant
            n == s@.len(),
            start <= i <= n,
            start == 0 || s@[start - 1] == '\n',
            forall|j: int| start <= j < i ==> s@[j] != '\n',
            any_line == (lines(s@.subrange(0, start as int)).len() > 0),
            out@ == prefixed(lines(s@.subrange(0, start as int)), prefix@),
        decreases n - i,
    {
        let c = s.get_char(i);
        if c == '\n' {
            let end = if i > start && s.get_char(i - 1) == '\r' { i - 1 } else { i };
            let line = s.substring_char(start, end);
            proof {
                let p = s@.subrange(0, start as int);
                let t = s@.subrange(start as int, i as int);
                assert forall|j: int| 0 <= j < t.len() implies t[j] != '\n' by {
                    assert(t[j] == s@[start + j]);
                }
                lemma_single_line(t);
                assert(s@.subrange(0, i + 1) =~= p + (t + seq!['\n']));
                lemma_lines_concat(p, t + seq!['\n']);
                assert(line@ =~= strip_cr(t));
                assert(lines(s@.subrange(0, i + 1)) =~= lines(p).push(strip_cr(t)));
                lemma_prefixed_push(lines(p), strip_cr(t), prefix@);
            }
            if any_line {
                out.append("\n");
                proof { reveal_strlit("\n"); }
            }
            out.append(prefix);
            out.append(line);
            any_line = true;
            start = i + 1;
        }
        i = i + 1;
    }
    proof {
        let p = s@.subrange(0, start as int);
        let t = s@.subrange(start as int, n as int);
        assert(s@ =~= p + t);
        lemma_lines_concat(p, t);
        assert forall|j: int| 0 <= j < t.len() implies t[j] != '\n' by {
            assert(t[j] == s@[start + j]);
        }
        lemma_single_line(t);
        if start == n {
            assert(t =~= Seq::<char>::empty());
            assert(lines(t) =~= Seq::<Seq<char>>::empty());
            assert(lines(s@) =~= lines(p));
        } else {
            assert(lines(s@) =~= lines(p).push(t));
            lemma_prefixed_push(lines(p), t, prefix@);
        }
    }
    if start < n {
        let line = s.substring_char(start, n);
        if any_line {
            out.append("\n");
            proof { reveal_strlit("\n"); }
        }
        out.append(prefix);
        out.append(line);
    }
    out
}

} // verus!
