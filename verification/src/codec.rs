//! Text machinery for the configuration format: a backslash escape for the
//! separator characters, and splitting/joining on a separator. Escaping
//! removes every newline and tab from a field, so a file is unambiguously a
//! newline-joined list of tab-joined fields; the lemmas here show that
//! splitting undoes joining and unescaping undoes escaping.

use vstd::prelude::*;

verus! {

/// `s` contains no occurrence of `c`.
pub open spec fn has_no(s: Seq<char>, c: char) -> bool {
    forall|i: int| 0 <= i < s.len() ==> s[i] != c
}

/// Escape of one character: backslash, newline and tab become two-character
/// sequences, everything else stands for itself.
pub open spec fn esc_char(c: char) -> Seq<char> {
    if c == '\\' {
        seq!['\\', '\\']
    } else if c == '\n' {
        seq!['\\', 'n']
    } else if c == '\t' {
        seq!['\\', 't']
    } else {
        seq![c]
    }
}

/// Escape of a whole field.
pub open spec fn esc(s: Seq<char>) -> Seq<char>
    decreases s.len(),
{
    if s.len() == 0 {
        Seq::empty()
    } else {
        esc_char(s[0]) + esc(s.drop_first())
    }
}

/// Inverse of [`esc`]: rejects a trailing backslash and unknown escapes.
pub open spec fn unesc(s: Seq<char>) -> Option<Seq<char>>
    decreases s.len(),
{
    if s.len() == 0 {
        Option::Some(Seq::empty())
    } else if s[0] == '\\' {
        if s.len() < 2 {
            Option::None
        } else {
            let d = if s[1] == '\\' {
                Option::Some('\\')
            } else if s[1] == 'n' {
                Option::Some('\n')
            } else if s[1] == 't' {
                Option::Some('\t')
            } else {
                Option::None
            };
            match d {
                Option::Some(dc) => match unesc(s.subrange(2, s.len() as int)) {
                    Option::Some(r) => Option::Some(seq![dc] + r),
                    Option::None => Option::None,
                },
                Option::None => Option::None,
            }
        }
    } else {
        match unesc(s.drop_first()) {
            Option::Some(r) => Option::Some(seq![s[0]] + r),
            Option::None => Option::None,
        }
    }
}

/// Pieces joined with a single separator between neighbours.
pub open spec fn join(pieces: Seq<Seq<char>>, sep: char) -> Seq<char>
    decreases pieces.len(),
{
    if pieces.len() == 0 {
        Seq::empty()
    } else if pieces.len() == 1 {
        pieces[0]
    } else {
        pieces[0] + seq![sep] + join(pieces.drop_first(), sep)
    }
}

/// Split at every separator; always yields at least one piece, and an empty
/// input yields one empty piece.
pub open spec fn split(s: Seq<char>, sep: char) -> Seq<Seq<char>>
    decreases s.len(),
{
    if s.len() == 0 {
        seq![Seq::<char>::empty()]
    } else if s[0] == sep {
        seq![Seq::<char>::empty()] + split(s.drop_first(), sep)
    } else {
        let rest = split(s.drop_first(), sep);
        seq![seq![s[0]] + rest[0]] + rest.drop_first()
    }
}

pub proof fn lemma_split_len(s: Seq<char>, sep: char)
    ensures
        split(s, sep).len() >= 1,
    decreases s.len(),
{
    if s.len() == 0 {
    } else {
        lemma_split_len(s.drop_first(), sep);
    }
}

/// Unescaping undoes escaping.
pub proof fn lemma_unesc_esc(s: Seq<char>)
    ensures
        unesc(esc(s)) == Option::Some(s),
    decreases s.len(),
{
    if s.len() == 0 {
        assert(esc(s) =~= Seq::<char>::empty());
    } else {
        let c = s[0];
        let rest = s.drop_first();
        lemma_unesc_esc(rest);
        let e = esc(s);
        assert(e == esc_char(c) + esc(rest));
        if c == '\\' || c == '\n' || c == '\t' {
            assert(esc_char(c).len() == 2);
            assert(e[0] == '\\');
            assert(e.len() >= 2);
            assert(e.subrange(2, e.len() as int) =~= esc(rest));
            assert(unesc(e) == Option::Some(seq![c] + rest));
            assert(seq![c] + rest =~= s);
        } else {
            assert(esc_char(c) =~= seq![c]);
            assert(e[0] == c);
            assert(e.drop_first() =~= esc(rest));
            assert(unesc(e) == Option::Some(seq![c] + rest));
            assert(seq![c] + rest =~= s);
        }
    }
}

/// An escaped field contains no raw newline and no raw tab.
pub proof fn lemma_esc_no_ctl(s: Seq<char>)
    ensures
        has_no(esc(s), '\n'),
        has_no(esc(s), '\t'),
    decreases s.len(),
{
    if s.len() == 0 {
    } else {
        lemma_esc_no_ctl(s.drop_first());
        let c = s[0];
        assert(forall|i: int|
            0 <= i < esc_char(c).len() ==> esc_char(c)[i] != '\n' && esc_char(c)[i] != '\t');
        assert forall|i: int| 0 <= i < esc(s).len() implies esc(s)[i] != '\n' && esc(s)[i]
            != '\t' by {
            if i < esc_char(c).len() {
                assert(esc(s)[i] == esc_char(c)[i]);
            } else {
                assert(esc(s)[i] == esc(s.drop_first())[i - esc_char(c).len()]);
            }
        }
    }
}

/// Escaping a longer field appends the escape of the new character.
pub proof fn lemma_esc_snoc(s: Seq<char>, c: char)
    ensures
        esc(s.push(c)) == esc(s) + esc_char(c),
    decreases s.len(),
{
    if s.len() == 0 {
        assert(s.push(c).drop_first() =~= Seq::<char>::empty());
        assert(s.push(c)[0] == c);
        assert(esc(s.push(c)) == esc_char(c) + esc(Seq::<char>::empty()));
        assert(esc_char(c) + Seq::<char>::empty() =~= esc_char(c));
        assert(esc(s) + esc_char(c) =~= esc_char(c));
    } else {
        lemma_esc_snoc(s.drop_first(), c);
        assert(s.push(c)[0] == s[0]);
        assert(s.push(c).drop_first() =~= s.drop_first().push(c));
        assert(esc(s.push(c)) == esc_char(s[0]) + esc(s.drop_first().push(c)));
        assert(esc_char(s[0]) + (esc(s.drop_first()) + esc_char(c)) =~= (esc_char(s[0]) + esc(
            s.drop_first(),
        )) + esc_char(c));
    }
}

/// A field without the separator splits into exactly itself.
pub proof fn lemma_split_no_sep(s: Seq<char>, sep: char)
    requires
        has_no(s, sep),
    ensures
        split(s, sep) == seq![s],
    decreases s.len(),
{
    if s.len() == 0 {
        assert(s =~= Seq::<char>::empty());
        assert(split(s, sep) =~~= seq![s]);
    } else {
        assert(s[0] != sep);
        assert(has_no(s.drop_first(), sep)) by {
            assert(forall|i: int|
                0 <= i < s.drop_first().len() ==> s.drop_first()[i] == s[i + 1]);
        }
        lemma_split_no_sep(s.drop_first(), sep);
        let rest = split(s.drop_first(), sep);
        assert(rest == seq![s.drop_first()]);
        assert(rest[0] == s.drop_first());
        assert(seq![s[0]] + s.drop_first() =~= s);
        assert(rest.drop_first() =~= Seq::<Seq<char>>::empty());
        assert(split(s, sep) == seq![seq![s[0]] + rest[0]] + rest.drop_first());
        assert(split(s, sep) =~~= seq![s]);
    }
}

/// Splitting starts over after a separator that follows a clean prefix.
pub proof fn lemma_split_prefix(p: Seq<char>, t: Seq<char>, sep: char)
    requires
        has_no(p, sep),
    ensures
        split(p + seq![sep] + t, sep) == seq![p] + split(t, sep),
    decreases p.len(),
{
    let s = p + seq![sep] + t;
    if p.len() == 0 {
        assert(s[0] == sep);
        assert(s.drop_first() =~= t);
        assert(split(s, sep) == seq![Seq::<char>::empty()] + split(t, sep));
        assert(p =~= Seq::<char>::empty());
        assert(seq![Seq::<char>::empty()] + split(t, sep) =~~= seq![p] + split(t, sep));
    } else {
        assert(has_no(p.drop_first(), sep)) by {
            assert(forall|i: int|
                0 <= i < p.drop_first().len() ==> p.drop_first()[i] == p[i + 1]);
        }
        lemma_split_prefix(p.drop_first(), t, sep);
        assert(s[0] == p[0]);
        assert(p[0] != sep);
        assert(s.drop_first() =~= p.drop_first() + seq![sep] + t);
        let rest = split(s.drop_first(), sep);
        assert(rest == seq![p.drop_first()] + split(t, sep));
        lemma_split_len(t, sep);
        assert(rest[0] == p.drop_first());
        assert(seq![s[0]] + rest[0] =~= p);
        assert(rest.drop_first() =~= split(t, sep));
        assert(split(s, sep) =~= seq![p] + split(t, sep));
    }
}

/// Splitting undoes joining when no piece contains the separator.
pub proof fn lemma_split_join(pieces: Seq<Seq<char>>, sep: char)
    requires
        pieces.len() >= 1,
        forall|k: int| 0 <= k < pieces.len() ==> has_no(#[trigger] pieces[k], sep),
    ensures
        split(join(pieces, sep), sep) == pieces,
    decreases pieces.len(),
{
    if pieces.len() == 1 {
        lemma_split_no_sep(pieces[0], sep);
        assert(seq![pieces[0]] =~= pieces);
    } else {
        assert(forall|k: int|
            0 <= k < pieces.drop_first().len() ==> pieces.drop_first()[k] == pieces[k + 1]);
        lemma_split_join(pieces.drop_first(), sep);
        assert(join(pieces, sep) == pieces[0] + seq![sep] + join(pieces.drop_first(), sep));
        lemma_split_prefix(pieces[0], join(pieces.drop_first(), sep), sep);
        assert(seq![pieces[0]] + pieces.drop_first() =~= pieces);
    }
}

/// Joining pieces free of some other character keeps it absent.
pub proof fn lemma_join_no_char(pieces: Seq<Seq<char>>, sep: char, c: char)
    requires
        c != sep,
        forall|k: int| 0 <= k < pieces.len() ==> has_no(#[trigger] pieces[k], c),
    ensures
        has_no(join(pieces, sep), c),
    decreases pieces.len(),
{
    if pieces.len() == 0 {
    } else if pieces.len() == 1 {
        assert(join(pieces, sep) == pieces[0]);
    } else {
        assert(forall|k: int|
            0 <= k < pieces.drop_first().len() ==> pieces.drop_first()[k] == pieces[k + 1]);
        lemma_join_no_char(pieces.drop_first(), sep, c);
        let h = pieces[0];
        let tl = join(pieces.drop_first(), sep);
        let s = join(pieces, sep);
        assert(s == h + seq![sep] + tl);
        assert forall|i: int| 0 <= i < s.len() implies s[i] != c by {
            if i < h.len() {
                assert(s[i] == h[i]);
            } else if i == h.len() {
                assert(s[i] == sep);
            } else {
                assert(s[i] == tl[i - h.len() - 1]);
            }
        }
    }
}

/// Escape a field, appending to `out`.
pub fn push_escaped(out: &mut Vec<char>, v: &Vec<char>)
    ensures
        final(out)@ == old(out)@ + esc(v@),
{
    let mut i: usize = 0;
    proof {
        assert(old(out)@ + esc(v@.take(0)) =~= old(out)@);
    }
    while i < v.len()
        invariant
            i <= v.len(),
            out@ == old(out)@ + esc(v@.take(i as int)),
        decreases v.len() - i,
    {
        let c = v[i];
        let ghost pre = out@;
        if c == '\\' {
            out.push('\\');
            out.push('\\');
        } else if c == '\n' {
            out.push('\\');
            out.push('n');
        } else if c == '\t' {
            out.push('\\');
            out.push('t');
        } else {
            out.push(c);
        }
        proof {
            assert(out@ =~= pre + esc_char(v@[i as int]));
            lemma_esc_snoc(v@.take(i as int), v@[i as int]);
            assert(v@.take(i as int).push(v@[i as int]) =~= v@.take(i + 1));
            assert(out@ =~= old(out)@ + esc(v@.take(i + 1)));
        }
        i = i + 1;
    }
    proof {
        assert(v@.take(v@.len() as int) =~= v@);
    }
}

/// Unescape a field; `None` on a trailing backslash or an unknown escape.
pub fn unescape_text(v: &Vec<char>) -> (r: Option<Vec<char>>)
    ensures
        match r {
            Option::Some(out) => unesc(v@) == Option::Some(out@),
            Option::None => unesc(v@) is None,
        },
{
    let mut out: Vec<char> = Vec::new();
    let mut i: usize = 0;
    proof {
        assert(v@.subrange(0, v@.len() as int) =~= v@);
        match unesc(v@) {
            Option::Some(rest) => {
                assert(out@ + rest =~= rest);
            },
            Option::None => {},
        }
    }
    while i < v.len()
        invariant
            i <= v.len(),
            match unesc(v@.subrange(i as int, v@.len() as int)) {
                Option::Some(rest) => unesc(v@) == Option::Some(out@ + rest),
                Option::None => unesc(v@) is None,
            },
        decreases v.len() - i,
    {
        let ghost tail = v@.subrange(i as int, v@.len() as int);
        let c = v[i];
        proof {
            assert(tail[0] == v@[i as int]);
        }
        if c == '\\' {
            if i + 1 >= v.len() {
                proof {
                    assert(tail.len() == 1);
                    assert(unesc(tail) is None);
                }
                return Option::None;
            }
            let d = v[i + 1];
            proof {
                assert(tail[1] == v@[i + 1]);
                assert(tail.subrange(2, tail.len() as int) =~= v@.subrange(
                    i + 2,
                    v@.len() as int,
                ));
            }
            let dc: char = if d == '\\' {
                '\\'
            } else if d == 'n' {
                '\n'
            } else if d == 't' {
                '\t'
            } else {
                proof {
                    assert(unesc(tail) is None);
                }
                return Option::None;
            };
            out.push(dc);
            proof {
                let rest2 = v@.subrange(i + 2, v@.len() as int);
                match unesc(rest2) {
                    Option::Some(r2) => {
                        assert(unesc(tail) == Option::Some(seq![dc] + r2));
                        assert(out@ + r2 =~= (out@.drop_last() + (seq![dc] + r2)));
                    },
                    Option::None => {
                        assert(unesc(tail) is None);
                    },
                }
            }
            i = i + 2;
        } else {
            out.push(c);
            proof {
                let rest2 = v@.subrange(i + 1, v@.len() as int);
                assert(tail.drop_first() =~= rest2);
                match unesc(rest2) {
                    Option::Some(r2) => {
                        assert(unesc(tail) == Option::Some(seq![c] + r2));
                        assert(out@ + r2 =~= (out@.drop_last() + (seq![c] + r2)));
                    },
                    Option::None => {
                        assert(unesc(tail) is None);
                    },
                }
            }
            i = i + 1;
        }
    }
    proof {
        assert(v@.subrange(i as int, v@.len() as int) =~= Seq::<char>::empty());
        assert(out@ + Seq::<char>::empty() =~= out@);
    }
    Option::Some(out)
}

/// The views of a list of buffers.
pub open spec fn views_of(r: Seq<Vec<char>>) -> Seq<Seq<char>> {
    r.map_values(|x: Vec<char>| x@)
}

/// The first piece of `ps` extended on the left with `pre`.
pub open spec fn prepend_first(pre: Seq<char>, ps: Seq<Seq<char>>) -> Seq<Seq<char>> {
    seq![pre + ps[0]] + ps.drop_first()
}

/// Split a buffer at every separator.
pub fn split_text(v: &Vec<char>, sep: char) -> (r: Vec<Vec<char>>)
    ensures
        views_of(r@) == split(v@, sep),
        r@.len() >= 1,
{
    let mut res: Vec<Vec<char>> = Vec::new();
    let mut cur: Vec<char> = Vec::new();
    let mut i: usize = 0;
    proof {
        lemma_split_len(v@, sep);
        assert(v@.subrange(0, v@.len() as int) =~= v@);
        assert(prepend_first(cur@, split(v@, sep)) =~= split(v@, sep)) by {
            lemma_split_len(v@, sep);
            assert(Seq::<char>::empty() + split(v@, sep)[0] =~= split(v@, sep)[0]);
            assert(seq![split(v@, sep)[0]] + split(v@, sep).drop_first() =~= split(v@, sep));
        }
        assert(views_of(res@) =~= Seq::<Seq<char>>::empty());
    }
    while i < v.len()
        invariant
            i <= v.len(),
            split(v@, sep) == views_of(res@) + prepend_first(
                cur@,
                split(v@.subrange(i as int, v@.len() as int), sep),
            ),
        decreases v.len() - i,
    {
        let ghost tail = v@.subrange(i as int, v@.len() as int);
        let ghost tail2 = v@.subrange(i + 1, v@.len() as int);
        proof {
            assert(tail[0] == v@[i as int]);
            assert(tail.drop_first() =~= tail2);
            lemma_split_len(tail2, sep);
        }
        let c = v[i];
        if c == sep {
            proof {
                assert(split(tail, sep) == seq![Seq::<char>::empty()] + split(tail2, sep));
                assert(prepend_first(cur@, split(tail, sep)) =~= seq![cur@] + split(tail2, sep));
            }
            let ghost old_res = res@;
            let ghost old_cur = cur@;
            res.push(cur);
            cur = Vec::new();
            proof {
                assert(views_of(res@) =~= views_of(old_res) + seq![old_cur]);
                assert(prepend_first(cur@, split(tail2, sep)) =~= split(tail2, sep)) by {
                    assert(Seq::<char>::empty() + split(tail2, sep)[0] =~= split(tail2, sep)[0]);
                    assert(seq![split(tail2, sep)[0]] + split(tail2, sep).drop_first() =~= split(
                        tail2,
                        sep,
                    ));
                }
                assert((views_of(old_res) + seq![old_cur]) + split(tail2, sep) =~= views_of(
                    old_res,
                ) + (seq![old_cur] + split(tail2, sep)));
            }
        } else {
            proof {
                let q = split(tail2, sep);
                assert(split(tail, sep) == seq![seq![v@[i as int]] + q[0]] + q.drop_first());
                assert(cur@ + (seq![v@[i as int]] + q[0]) =~= cur@.push(v@[i as int]) + q[0]);
                assert(prepend_first(cur@, split(tail, sep)) =~= prepend_first(
                    cur@.push(v@[i as int]),
                    q,
                ));
            }
            cur.push(c);
        }
        i = i + 1;
    }
    proof {
        let tail = v@.subrange(i as int, v@.len() as int);
        assert(tail =~= Seq::<char>::empty());
        assert(split(tail, sep) =~= seq![Seq::<char>::empty()]);
        assert(cur@ + Seq::<char>::empty() =~= cur@);
        assert(prepend_first(cur@, split(tail, sep)) =~= seq![cur@]);
    }
    let ghost old_res = res@;
    let ghost old_cur = cur@;
    res.push(cur);
    proof {
        assert(views_of(res@) =~= views_of(old_res) + seq![old_cur]);
        assert(views_of(res@) =~= split(v@, sep));
    }
    res
}

} // verus!
