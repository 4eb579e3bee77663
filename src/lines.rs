//! A text as a sequence of lines split at `'\n'`, and back.
use vstd::prelude::*;

verus! {

/// The lines of `s`: the pieces between `'\n'` characters, so that a text
/// ending in `'\n'` has an empty last line and the empty text has one empty line.
pub open spec fn split_lines(s: Seq<char>) -> Seq<Seq<char>>
    decreases s.len(),
{
    if s.len() == 0 {
        seq![Seq::<char>::empty()]
    } else {
        let rest = split_lines(s.skip(1));
        if s[0] == '\n' {
            seq![Seq::<char>::empty()] + rest
        } else {
            rest.update(0, seq![s[0]] + rest[0])
        }
    }
}

/// The lines joined with `'\n'` between each two.
pub open spec fn join_lines(ls: Seq<Seq<char>>) -> Seq<char>
    decreases ls.len(),
{
    if ls.len() == 0 {
        Seq::<char>::empty()
    } else if ls.len() == 1 {
        ls[0]
    } else {
        join_lines(ls.drop_last()) + seq!['\n'] + ls.last()
    }
}

/// `s` holds no `'\n'`.
pub open spec fn no_newline(s: Seq<char>) -> bool {
    forall|i: int| 0 <= i < s.len() ==> s[i] != '\n'
}

/// The views of a vector of lines.
pub open spec fn views(ls: Seq<Vec<char>>) -> Seq<Seq<char>> {
    ls.map_values(|l: Vec<char>| l@)
}

/// A text has at least one line.
pub proof fn lemma_split_nonempty(s: Seq<char>)
    ensures
        split_lines(s).len() >= 1,
    decreases s.len(),
{
    if s.len() > 0 {
        lemma_split_nonempty(s.skip(1));
    }
}

/// No line of a text holds `'\n'`.
pub proof fn lemma_split_no_newline(s: Seq<char>)
    ensures
        forall|k: int| 0 <= k < split_lines(s).len() ==> no_newline(#[trigger] split_lines(s)[k]),
    decreases s.len(),
{
    if s.len() > 0 {
        lemma_split_no_newline(s.skip(1));
        lemma_split_nonempty(s.skip(1));
        let rest = split_lines(s.skip(1));
        if s[0] != '\n' {
            assert forall|k: int| 0 <= k < split_lines(s).len() implies no_newline(
                #[trigger] split_lines(s)[k],
            ) by {
                if k == 0 {
                    let l = seq![s[0]] + rest[0];
                    assert(no_newline(rest[0]));
                    assert forall|i: int| 0 <= i < l.len() implies l[i] != '\n' by {
                        if i > 0 {
                            assert(l[i] == rest[0][i - 1]);
                        }
                    }
                }
            }
        } else {
            assert forall|k: int| 0 <= k < split_lines(s).len() implies no_newline(
                #[trigger] split_lines(s)[k],
            ) by {
                if k > 0 {
                    assert(split_lines(s)[k] == rest[k - 1]);
                }
            }
        }
    }
}

/// Joining from the front: the first line, `'\n'`, the others joined.
pub proof fn lemma_join_front(ls: Seq<Seq<char>>)
    requires
        ls.len() >= 2,
    ensures
        join_lines(ls) == ls[0] + seq!['\n'] + join_lines(ls.skip(1)),
    decreases ls.len(),
{
    if ls.len() == 2 {
        assert(ls.drop_last() =~= seq![ls[0]]);
        assert(ls.skip(1) =~= seq![ls[1]]);
        assert(join_lines(ls.drop_last()) == ls[0]);
        assert(join_lines(ls.skip(1)) == ls[1]);
    } else {
        lemma_join_front(ls.drop_last());
        assert(ls.drop_last().skip(1) =~= ls.skip(1).drop_last());
        assert(ls.skip(1).last() == ls.last());
        assert(join_lines(ls) =~= ls[0] + seq!['\n'] + join_lines(ls.skip(1)));
    }
}

/// Joining the lines of a text gives the text back.
pub proof fn lemma_join_split(s: Seq<char>)
    ensures
        join_lines(split_lines(s)) == s,
    decreases s.len(),
{
    if s.len() > 0 {
        let rest = split_lines(s.skip(1));
        lemma_join_split(s.skip(1));
        lemma_split_nonempty(s.skip(1));
        let ls = split_lines(s);
        if s[0] == '\n' {
            lemma_join_front(ls);
            assert(ls.skip(1) =~= rest);
            assert(join_lines(ls) =~= s);
        } else if rest.len() == 1 {
            assert(join_lines(rest) == rest[0]);
            assert(ls.len() == 1);
            assert(join_lines(ls) == ls[0]);
            assert(ls[0] == seq![s[0]] + s.skip(1));
            assert(seq![s[0]] + s.skip(1) =~= s);
        } else {
            lemma_join_front(ls);
            lemma_join_front(rest);
            assert(ls.skip(1) =~= rest.skip(1));
            assert(join_lines(ls) =~= seq![s[0]] + join_lines(rest));
            assert(seq![s[0]] + s.skip(1) =~= s);
        }
    }
}

/// A piece without `'\n'` in front of a text lengthens its first line.
proof fn lemma_split_prepend(a: Seq<char>, t: Seq<char>)
    requires
        no_newline(a),
    ensures
        split_lines(a + t) == split_lines(t).update(0, a + split_lines(t)[0]),
    decreases a.len(),
{
    lemma_split_nonempty(t);
    if a.len() == 0 {
        assert(a + t =~= t);
        assert(split_lines(t).update(0, a + split_lines(t)[0]) =~= split_lines(t));
    } else {
        let a1 = a.skip(1);
        assert(no_newline(a1)) by {
            assert forall|i: int| 0 <= i < a1.len() implies a1[i] != '\n' by {
                assert(a1[i] == a[i + 1]);
            }
        }
        lemma_split_prepend(a1, t);
        assert((a + t).skip(1) =~= a1 + t);
        assert((a + t)[0] == a[0]);
        assert(seq![a[0]] + (a1 + split_lines(t)[0]) =~= a + split_lines(t)[0]);
        assert(split_lines(a + t) =~= split_lines(t).update(0, a + split_lines(t)[0]));
    }
}

/// Lines without `'\n'`, joined and split again, are the same lines.
pub proof fn lemma_split_join(ls: Seq<Seq<char>>)
    requires
        ls.len() >= 1,
        forall|k: int| 0 <= k < ls.len() ==> no_newline(#[trigger] ls[k]),
    ensures
        split_lines(join_lines(ls)) == ls,
    decreases ls.len(),
{
    if ls.len() == 1 {
        lemma_split_prepend(ls[0], Seq::<char>::empty());
        assert(ls[0] + Seq::<char>::empty() =~= ls[0]);
        assert(split_lines(join_lines(ls)) =~= ls);
    } else {
        lemma_join_front(ls);
        let tail = ls.skip(1);
        assert forall|k: int| 0 <= k < tail.len() implies no_newline(#[trigger] tail[k]) by {
            assert(tail[k] == ls[k + 1]);
        }
        lemma_split_join(tail);
        let t = seq!['\n'] + join_lines(tail);
        assert(ls[0] + seq!['\n'] + join_lines(tail) =~= ls[0] + t);
        lemma_split_prepend(ls[0], t);
        assert(t.skip(1) =~= join_lines(tail));
        assert(split_lines(t) =~= seq![Seq::<char>::empty()] + tail);
        assert(ls[0] + Seq::<char>::empty() =~= ls[0]);
        assert(split_lines(join_lines(ls)) =~= ls);
    }
}

/// The lines of `s`, split at `'\n'`.
pub fn split_lines_exec(s: &Vec<char>) -> (r: Vec<Vec<char>>)
    ensures
        views(r@) == split_lines(s@),
{
    let mut done: Vec<Vec<char>> = Vec::new();
    let mut cur: Vec<char> = Vec::new();
    let mut i: usize = 0;
    proof {
        lemma_split_nonempty(s@);
        assert(s@.skip(0) =~= s@);
        let r0 = split_lines(s@);
        assert(r0 =~= views(done@) + seq![cur@ + r0[0]] + r0.skip(1));
    }
    while i < s.len()
        invariant
            i <= s@.len(),
            split_lines(s@.skip(i as int)).len() >= 1,
            split_lines(s@) == views(done@) + seq![cur@ + split_lines(s@.skip(i as int))[0]]
                + split_lines(s@.skip(i as int)).skip(1),
        decreases s@.len() - i,
    {
        let ghost r = split_lines(s@.skip(i as int));
        let ghost r1 = split_lines(s@.skip(i + 1));
        let ghost done0 = views(done@);
        let ghost cur0 = cur@;
        proof {
            lemma_split_nonempty(s@.skip(i + 1));
            assert(s@.skip(i as int).skip(1) =~= s@.skip(i + 1));
            assert(s@.skip(i as int)[0] == s@[i as int]);
        }
        if s[i] == '\n' {
            let line = cur;
            cur = Vec::new();
            done.push(line);
            proof {
                assert(r =~= seq![Seq::<char>::empty()] + r1);
                assert(views(done@) =~= done0 + seq![cur0]);
                assert(cur0 + Seq::<char>::empty() =~= cur0);
                assert(cur@ + r1[0] =~= r1[0]);
                assert(r.skip(1) =~= r1);
                assert(split_lines(s@) =~= views(done@) + seq![cur@ + r1[0]] + r1.skip(1));
            }
        } else {
            cur.push(s[i]);
            proof {
                assert(r =~= r1.update(0, seq![s@[i as int]] + r1[0]));
                assert(cur@ + r1[0] =~= cur0 + (seq![s@[i as int]] + r1[0]));
                assert(r.skip(1) =~= r1.skip(1));
                assert(split_lines(s@) =~= views(done@) + seq![cur@ + r1[0]] + r1.skip(1));
            }
        }
        i = i + 1;
    }
    proof {
        assert(s@.skip(i as int) =~= Seq::<char>::empty());
        let r = split_lines(s@.skip(i as int));
        assert(r =~= seq![Seq::<char>::empty()]);
        assert(cur@ + r[0] =~= cur@);
        assert(r.skip(1) =~= Seq::<Seq<char>>::empty());
    }
    done.push(cur);
    assert(views(done@) =~= split_lines(s@));
    done
}

/// The lines joined with `'\n'`.
pub fn join_lines_exec(ls: &Vec<Vec<char>>) -> (r: Vec<char>)
    ensures
        r@ == join_lines(views(ls@)),
{
    let mut out: Vec<char> = Vec::new();
    if ls.len() == 0 {
        assert(views(ls@) =~= Seq::<Seq<char>>::empty());
        return out;
    }
    crate::text::push_all(&mut out, &ls[0]);
    assert(views(ls@).take(1) =~= seq![ls@[0]@]);
    let mut i: usize = 1;
    while i < ls.len()
        invariant
            1 <= i <= ls@.len(),
            out@ == join_lines(views(ls@).take(i as int)),
        decreases ls@.len() - i,
    {
        out.push('\n');
        crate::text::push_all(&mut out, &ls[i]);
        proof {
            let t = views(ls@).take(i + 1);
            assert(t.drop_last() =~= views(ls@).take(i as int));
            assert(t.last() == ls@[i as int]@);
        }
        i = i + 1;
    }
    assert(views(ls@).take(i as int) =~= views(ls@));
    out
}

} // verus!
