use vstd::prelude::*;

verus! {

/// The pieces of `s` between occurrences of `sep`, as `str::split` with a
/// single-character pattern yields them: `n` separators give `n + 1` pieces,
/// empty ones included.
pub open spec fn pieces(s: Seq<char>, sep: char) -> Seq<Seq<char>>
    decreases s.len(),
{
    if s.len() == 0 {
        seq![Seq::<char>::empty()]
    } else {
        let front = pieces(s.drop_last(), sep);
        if s.last() == sep {
            front.push(Seq::<char>::empty())
        } else {
            front.update(front.len() - 1, front.last().push(s.last()))
        }
    }
}

/// The views of a sequence of strings.
pub open spec fn views(v: Seq<String>) -> Seq<Seq<char>> {
    v.map_values(|x: String| x@)
}

pub proof fn lemma_pieces_nonempty(s: Seq<char>, sep: char)
    ensures
        pieces(s, sep).len() >= 1,
    decreases s.len(),
{
    if s.len() > 0 {
        lemma_pieces_nonempty(s.drop_last(), sep);
    }
}

/// Splitting at a separator splits each side of it apart.
pub proof fn lemma_pieces_concat(x: Seq<char>, y: Seq<char>, sep: char)
    ensures
        pieces(x + seq![sep] + y, sep) == pieces(x, sep) + pieces(y, sep),
    decreases y.len(),
{
    let s = x + seq![sep] + y;
    if y.len() == 0 {
        assert(s.drop_last() =~= x);
        assert(pieces(y, sep) == seq![Seq::<char>::empty()]);
        assert(pieces(s, sep) =~= pieces(x, sep) + pieces(y, sep));
    } else {
        let front = y.drop_last();
        let c = y.last();
        assert(s.drop_last() =~= x + seq![sep] + front);
        assert(s.last() == c);
        lemma_pieces_concat(x, front, sep);
        lemma_pieces_nonempty(front, sep);
        lemma_pieces_nonempty(x, sep);
        assert(pieces(s, sep) =~= pieces(x, sep) + pieces(y, sep));
    }
}

/// Text without the separator is one piece.
pub proof fn lemma_pieces_single(x: Seq<char>, sep: char)
    requires
        !x.contains(sep),
    ensures
        pieces(x, sep) == seq![x],
    decreases x.len(),
{
    if x.len() == 0 {
        assert(x =~= Seq::<char>::empty());
    } else {
        let front = x.drop_last();
        assert(!front.contains(sep)) by {
            if front.contains(sep) {
                let i = choose|i: int| 0 <= i < front.len() && front[i] == sep;
                assert(x[i] == sep);
            }
        }
        assert(x.last() != sep) by {
            assert(x[x.len() - 1] == x.last());
        }
        lemma_pieces_single(front, sep);
        assert(front.push(x.last()) =~= x);
        assert(pieces(x, sep) =~= seq![x]);
    }
}

/// A copy of `v`, string by string.
pub(crate) fn copy_strings(v: &Vec<String>) -> (r: Vec<String>)
    ensures
        views(r@) == views(v@),
{
    let mut out: Vec<String> = Vec::new();
    let mut i: usize = 0;
    while i < v.len()
        invariant
            i <= v@.len(),
            views(out@) == views(v@).subrange(0, i as int),
        decreases v.len() - i,
    {
        let ghost before = out@;
        let x = v[i].clone();
        out.push(x);
        proof {
            assert(views(out@) =~= views(before).push(x@));
        }
        i = i + 1;
        proof {
            assert(views(out@) =~= views(v@).subrange(0, i as int));
        }
    }
    proof {
        assert(views(v@).subrange(0, i as int) =~= views(v@));
    }
    out
}

/// Splits `s` at every occurrence of `sep`.
pub fn split_on(s: &str, sep: char) -> (r: Vec<String>)
    ensures
        views(r@) == pieces(s@, sep),
{
    let n = s.unicode_len();
    let mut out: Vec<String> = Vec::new();
    let mut start: usize = 0;
    let mut i: usize = 0;
    proof {
        assert(views(out@) =~= Seq::<Seq<char>>::empty());
        assert(s@.subrange(0, 0) =~= Seq::<char>::empty());
        assert(pieces(s@.subrange(0, 0), sep) == seq![Seq::<char>::empty()]);
        assert(views(out@).push(s@.subrange(0, 0)) =~= pieces(s@.subrange(0, 0), sep));
    }
    while i < n
        invariant
            n == s@.len(),
            start <= i <= n,
            views(out@).push(s@.subrange(start as int, i as int)) == pieces(
                s@.subrange(0, i as int),
                sep,
            ),
        decreases n - i,
    {
        let c = s.get_char(i);
        proof {
            let pre = s@.subrange(0, i as int);
            let next = s@.subrange(0, i + 1);
            assert(next.drop_last() =~= pre);
            assert(next.last() == c);
            lemma_pieces_nonempty(pre, sep);
        }
        if c == sep {
            let ghost before = out@;
            let piece = String::from_str(s.substring_char(start, i));
            out.push(piece);
            start = i + 1;
            proof {
                assert(views(out@) =~= views(before).push(piece@));
                assert(s@.subrange(start as int, i + 1) =~= Seq::<char>::empty());
            }
        } else {
            proof {
                assert(s@.subrange(start as int, i + 1) =~= s@.subrange(start as int, i as int).push(c));
                assert(views(out@).push(s@.subrange(start as int, i + 1)) =~= pieces(s@.subrange(0, i as int), sep).update(
                    views(out@).len() as int,
                    s@.subrange(start as int, i + 1),
                ));
            }
        }
        i = i + 1;
    }
    let piece = String::from_str(s.substring_char(start, n));
    out.push(piece);
    proof {
        assert(s@.subrange(0, n as int) =~= s@);
    }
    out
}

} // verus!
