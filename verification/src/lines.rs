//! Newline-delimited text, as a listing response body carries it.
//!
//! [`split_lines_of`] states how a body is read back into lines: split
//! at `\n` or `\r\n`, with an optional final line ending producing no
//! empty last line, and an empty body producing no lines at all.
//! [`split_lines`] computes it. [`join_lines`] is the form a store
//! writes, and [`lemma_split_join`] proves that splitting reverses it.

use vstd::prelude::*;

verus! {

use vstd::string::StrSliceExecFns;

/// The lines of a body, as standard line splitting reads them.
pub open spec fn split_lines_of(s: Seq<char>) -> Seq<Seq<char>>
    decreases s.len(),
{
    if s.len() == 0 {
        Seq::empty()
    } else if s.first() == '\n' {
        seq![Seq::empty()] + split_lines_of(s.drop_first())
    } else if s.first() == '\r' && s.len() >= 2 && s[1] == '\n' {
        seq![Seq::empty()] + split_lines_of(s.skip(2))
    } else {
        cons_to_first_line(s.first(), split_lines_of(s.drop_first()))
    }
}

/// `c` prepended to the first line of `rest`, opening a line when
/// `rest` has none.
pub open spec fn cons_to_first_line(c: char, rest: Seq<Seq<char>>) -> Seq<Seq<char>> {
    if rest.len() == 0 {
        seq![seq![c]]
    } else {
        seq![seq![c] + rest.first()] + rest.drop_first()
    }
}

/// A line with one trailing carriage return removed, since the line
/// endings `\n` and `\r\n` are read alike.
pub open spec fn strip_cr(s: Seq<char>) -> Seq<char> {
    if s.len() > 0 && s.last() == '\r' {
        s.drop_last()
    } else {
        s
    }
}

/// A body without newlines is one single line.
pub proof fn lemma_split_lines_no_newline(s: Seq<char>)
    requires
        s.len() > 0,
        forall|j: int| 0 <= j < s.len() ==> s[j] != '\n',
    ensures
        split_lines_of(s) == seq![s],
    decreases s.len(),
{
    assert(s.first() != '\n');
    if s.len() == 1 {
        assert(split_lines_of(s) =~~= seq![s]) by {
            assert(split_lines_of(s.drop_first()) =~~= Seq::<Seq<char>>::empty());
            assert(seq![s.first()] =~= s);
        }
    } else {
        assert(s[1] != '\n');
        assert forall|j: int| 0 <= j < s.drop_first().len() implies s.drop_first()[j] != '\n' by {
            assert(s.drop_first()[j] == s[j + 1]);
        }
        lemma_split_lines_no_newline(s.drop_first());
        assert(split_lines_of(s) == cons_to_first_line(s.first(), seq![s.drop_first()]));
        assert(seq![s.first()] + s.drop_first() =~= s);
        assert(split_lines_of(s) =~~= seq![s]);
    }
}

/// Splitting at the first newline: the stripped segment before it is
/// the first line, and what follows the newline splits on its own.
pub proof fn lemma_split_lines_at(s: Seq<char>, k: int)
    requires
        0 <= k < s.len(),
        s[k] == '\n',
        forall|j: int| 0 <= j < k ==> s[j] != '\n',
    ensures
        split_lines_of(s) == seq![strip_cr(s.take(k))] + split_lines_of(s.skip(k + 1)),
    decreases k,
{
    if k == 0 {
        assert(s.first() == '\n');
        assert(strip_cr(s.take(0)) =~= Seq::<char>::empty());
        assert(s.skip(1) =~= s.drop_first());
        assert(split_lines_of(s) =~~= seq![strip_cr(s.take(0))] + split_lines_of(s.skip(1)));
    } else if k == 1 && s.first() == '\r' {
        assert(s[1] == '\n');
        assert(strip_cr(s.take(1)) =~= Seq::<char>::empty()) by {
            assert(s.take(1).last() == s[0]);
            assert(s.take(1).drop_last() =~= Seq::<char>::empty());
        }
        assert(split_lines_of(s) =~~= seq![strip_cr(s.take(1))] + split_lines_of(s.skip(2)));
    } else {
        assert(s.first() != '\n');
        assert(!(s.first() == '\r' && s.len() >= 2 && s[1] == '\n')) by {
            if s.len() >= 2 && s[1] == '\n' {
                assert(k == 1);
            }
        }
        let t = s.drop_first();
        assert(t[k - 1] == s[k]);
        assert forall|j: int| 0 <= j < k - 1 implies t[j] != '\n' by {
            assert(t[j] == s[j + 1]);
        }
        lemma_split_lines_at(t, k - 1);
        assert(split_lines_of(s) == cons_to_first_line(
            s.first(),
            seq![strip_cr(t.take(k - 1))] + split_lines_of(t.skip(k)),
        ));
        assert(t.skip(k) =~= s.skip(k + 1));
        assert(s.take(k) =~= seq![s.first()] + t.take(k - 1));
        if k == 1 {
            assert(s.first() != '\r');
            assert(strip_cr(s.take(k)) =~= seq![s.first()]) by {
                assert(s.take(1) =~= seq![s.first()]);
            }
            assert(split_lines_of(s) =~~= seq![strip_cr(s.take(k))] + split_lines_of(s.skip(k + 1)));
        } else {
            let u = t.take(k - 1);
            assert(u.len() > 0);
            assert((seq![s.first()] + u).last() == u.last());
            if u.last() == '\r' {
                assert(seq![s.first()] + u.drop_last() =~= (seq![s.first()] + u).drop_last());
                assert(seq![s.first()] + strip_cr(u) =~= strip_cr(s.take(k)));
            } else {
                assert(seq![s.first()] + strip_cr(u) =~= strip_cr(s.take(k)));
            }
            assert(split_lines_of(s) =~~= seq![strip_cr(s.take(k))] + split_lines_of(s.skip(k + 1)));
        }
    }
}

/// Lines joined by single newlines, the way a store writes a listing
/// body: no trailing newline, and an empty listing is an empty body.
pub open spec fn join_lines(ls: Seq<Seq<char>>) -> Seq<char>
    decreases ls.len(),
{
    if ls.len() == 0 {
        Seq::empty()
    } else if ls.len() == 1 {
        ls.first()
    } else {
        ls.first() + seq!['\n'] + join_lines(ls.drop_first())
    }
}

/// True of a line that the newline-delimited wire form carries
/// faithfully: non-empty, free of `\n`, and not ending in `\r`.
pub open spec fn wire_line(l: Seq<char>) -> bool {
    &&& l.len() > 0
    &&& forall|j: int| 0 <= j < l.len() ==> l[j] != '\n'
    &&& l.last() != '\r'
}

/// Splitting reverses joining: a newline-joined sequence of wire lines
/// splits back into exactly those lines, in order.
pub proof fn lemma_split_join(ls: Seq<Seq<char>>)
    requires
        forall|i: int| 0 <= i < ls.len() ==> wire_line(#[trigger] ls[i]),
    ensures
        split_lines_of(join_lines(ls)) == ls,
    decreases ls.len(),
{
    if ls.len() == 0 {
        assert(split_lines_of(join_lines(ls)) =~~= ls);
    } else if ls.len() == 1 {
        assert(wire_line(ls[0]));
        lemma_split_lines_no_newline(ls.first());
        assert(split_lines_of(join_lines(ls)) =~~= ls);
    } else {
        let u = join_lines(ls);
        let head = ls.first();
        assert(wire_line(ls[0]));
        let k = head.len() as int;
        assert(u == head + seq!['\n'] + join_lines(ls.drop_first()));
        assert(u[k] == '\n');
        assert forall|j: int| 0 <= j < k implies u[j] != '\n' by {
            assert(u[j] == head[j]);
        }
        lemma_split_lines_at(u, k);
        assert(u.take(k) =~= head);
        assert(strip_cr(head) == head);
        assert(u.skip(k + 1) =~= join_lines(ls.drop_first()));
        assert forall|i: int| 0 <= i < ls.drop_first().len() implies wire_line(
            #[trigger] ls.drop_first()[i],
        ) by {
            assert(ls.drop_first()[i] == ls[i + 1]);
        }
        lemma_split_join(ls.drop_first());
        assert(split_lines_of(u) =~~= ls);
    }
}

/// The lines of `s`, split as [`split_lines_of`] states.
pub fn split_lines(s: &str) -> (r: Vec<String>)
    ensures
        r.deep_view() == split_lines_of(s@),
{
    let n = s.unicode_len();
    let mut out: Vec<String> = Vec::new();
    let mut start: usize = 0;
    let mut i: usize = 0;
    proof {
        assert(s@.skip(0) =~= s@);
        assert(out.deep_view() =~~= Seq::<Seq<char>>::empty());
        assert(out.deep_view() + split_lines_of(s@) =~~= split_lines_of(s@));
    }
    while i < n
        invariant
            n == s@.len(),
            start <= i <= n,
            forall|j: int| start <= j < i ==> s@[j] != '\n',
            split_lines_of(s@) == out.deep_view() + split_lines_of(s@.skip(start as int)),
        decreases n - i,
    {
        let c = s.get_char(i);
        if c == '\n' {
            let line: &str = if i > start && s.get_char(i - 1) == '\r' {
                s.substring_char(start, i - 1)
            } else {
                s.substring_char(start, i)
            };
            let ghost prior = out.deep_view();
            proof {
                let u = s@.skip(start as int);
                let k = i - start as int;
                assert(u[k] == s@[i as int]);
                assert forall|j: int| 0 <= j < k implies u[j] != '\n' by {
                    assert(u[j] == s@[j + start]);
                }
                lemma_split_lines_at(u, k);
                assert(u.take(k) =~= s@.subrange(start as int, i as int));
                assert(strip_cr(u.take(k)) =~= line@) by {
                    if i > start && s@[i - 1] == '\r' {
                        assert(u.take(k).last() == s@[i - 1]);
                        assert(u.take(k).drop_last() =~= s@.subrange(start as int, i - 1));
                    } else {
                        if u.take(k).len() > 0 {
                            assert(u.take(k).last() == s@[i - 1]);
                        }
                    }
                }
                assert(u.skip(k + 1) =~= s@.skip(i + 1));
            }
            out.push(line.to_owned());
            proof {
                assert(out.deep_view() =~~= prior.push(line@));
                assert(prior.push(line@) + split_lines_of(s@.skip(i + 1)) =~~= prior + (seq![
                    line@,
                ] + split_lines_of(s@.skip(i + 1))));
            }
            start = i + 1;
        }
        i = i + 1;
    }
    if start < n {
        let line = s.substring_char(start, n);
        proof {
            let u = s@.skip(start as int);
            assert forall|j: int| 0 <= j < u.len() implies u[j] != '\n' by {
                assert(u[j] == s@[j + start]);
            }
            lemma_split_lines_no_newline(u);
            assert(line@ =~= u);
        }
        let ghost prior = out.deep_view();
        out.push(line.to_owned());
        proof {
            assert(out.deep_view() =~~= prior.push(line@));
            assert(prior.push(line@) =~~= prior + seq![line@]);
        }
    } else {
        proof {
            assert(s@.skip(start as int) =~= Seq::<char>::empty());
        }
    }
    proof {
        assert(out.deep_view() =~~= split_lines_of(s@));
    }
    out
}

} // verus!
