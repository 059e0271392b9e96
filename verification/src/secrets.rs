use vstd::prelude::*;
use crate::text::{
    copy_range, find_byte, find_from, lemma_find_from_props, lemma_find_from_skip, trim,
    trim_bytes, EQ, HASH, NL,
};

verus! {

/// One key/value pair read from the secrets file.
pub struct SecretEntry {
    pub key: Vec<u8>,
    pub value: Vec<u8>,
}

/// The entry a single line yields, if any: the line is trimmed of
/// surrounding ASCII whitespace (the parser reads raw bytes and does not
/// decode multi-byte whitespace); a blank or `#`-prefixed line yields
/// nothing; otherwise the line is split at its first `=` and both halves are
/// trimmed the same way. A surviving line without `=` yields nothing.
pub open spec fn parse_line(line: Seq<u8>) -> Option<(Seq<u8>, Seq<u8>)> {
    let t = trim(line);
    if t.len() == 0 || t[0] == HASH {
        None
    } else {
        match find_from(t, 0, EQ) {
            Some(i) => Some((trim(t.take(i)), trim(t.skip(i + 1)))),
            None => None,
        }
    }
}

/// A line that yields an entry: non-blank after trimming, not a comment, and
/// containing a separator.
pub open spec fn is_secret_line(line: Seq<u8>) -> bool {
    let t = trim(line);
    t.len() > 0 && t[0] != HASH && find_from(t, 0, EQ) is Some
}

/// The text split at every newline, in order.
pub open spec fn line_seqs(s: Seq<u8>) -> Seq<Seq<u8>>
    decreases s.len(),
{
    match find_from(s, 0, NL) {
        Some(i) => if 0 <= i < s.len() {
            seq![s.take(i)] + line_seqs(s.skip(i + 1))
        } else {
            seq![s]
        },
        None => seq![s],
    }
}

pub open spec fn parse_line_fn() -> spec_fn(Seq<u8>) -> Option<(Seq<u8>, Seq<u8>)> {
    |l: Seq<u8>| parse_line(l)
}

pub open spec fn secret_line_fn() -> spec_fn(Seq<u8>) -> bool {
    |l: Seq<u8>| is_secret_line(l)
}

/// All entries of the secrets text, in line order.
pub open spec fn parse_entries(s: Seq<u8>) -> Seq<(Seq<u8>, Seq<u8>)> {
    line_seqs(s).filter_map(parse_line_fn())
}

/// The pair a qualifying line parses to.
pub open spec fn line_entry(l: Seq<u8>) -> (Seq<u8>, Seq<u8>) {
    match parse_line(l) {
        Some(p) => p,
        None => (Seq::empty(), Seq::empty()),
    }
}

pub open spec fn entries_view(v: Seq<SecretEntry>) -> Seq<(Seq<u8>, Seq<u8>)> {
    v.map_values(|e: SecretEntry| (e.key@, e.value@))
}

pub proof fn lemma_filter_map_distributes<A, B>(a: Seq<A>, b: Seq<A>, f: spec_fn(A) -> Option<B>)
    ensures
        (a + b).filter_map(f) == a.filter_map(f) + b.filter_map(f),
    decreases b.len(),
{
    if b.len() == 0 {
        assert(a + b =~= a);
        assert(b.filter_map(f) =~= Seq::<B>::empty());
        assert(a.filter_map(f) + b.filter_map(f) =~= a.filter_map(f));
    } else {
        lemma_filter_map_distributes(a, b.drop_last(), f);
        assert((a + b).drop_last() =~= a + b.drop_last());
        assert((a + b).last() == b.last());
        match f(b.last()) {
            Some(y) => {
                assert((a + b).filter_map(f) == (a + b.drop_last()).filter_map(f) + seq![y]);
                assert(a.filter_map(f) + (b.drop_last().filter_map(f) + seq![y]) =~= (a.filter_map(
                    f,
                ) + b.drop_last().filter_map(f)) + seq![y]);
                assert(b.filter_map(f) == b.drop_last().filter_map(f) + seq![y]);
            },
            None => {
                assert((a + b).filter_map(f) == (a + b.drop_last()).filter_map(f));
                assert(b.filter_map(f) == b.drop_last().filter_map(f));
            },
        }
    }
}

/// The entries are exactly the qualifying lines, parsed, in line order: as
/// many entries as lines that are non-blank, not comments, and hold a
/// separator, and the k-th entry comes from the k-th such line.
pub proof fn lemma_entries_follow_lines(s: Seq<u8>)
    ensures
        parse_entries(s).len() == line_seqs(s).filter(secret_line_fn()).len(),
        forall|k: int|
            0 <= k < parse_entries(s).len() ==> parse_entries(s)[k] == line_entry(
                line_seqs(s).filter(secret_line_fn())[k],
            ),
{
    lemma_filter_map_is_filtered_map(line_seqs(s));
}

proof fn lemma_filter_map_is_filtered_map(ls: Seq<Seq<u8>>)
    ensures
        ls.filter_map(parse_line_fn()) == ls.filter(secret_line_fn()).map_values(
            |l: Seq<u8>| line_entry(l),
        ),
    decreases ls.len(),
{
    reveal(Seq::filter);
    let emap = |l: Seq<u8>| line_entry(l);
    if ls.len() == 0 {
        assert(ls.filter_map(parse_line_fn()) =~= Seq::<(Seq<u8>, Seq<u8>)>::empty());
        assert(ls.filter(secret_line_fn()).map_values(emap) =~= Seq::<(Seq<u8>, Seq<u8>)>::empty());
    } else {
        lemma_filter_map_is_filtered_map(ls.drop_last());
        let l = ls.last();
        let rest = ls.drop_last();
        assert(is_secret_line(l) == (parse_line(l) is Some));
        if is_secret_line(l) {
            assert(ls.filter(secret_line_fn()) == rest.filter(secret_line_fn()).push(l));
            assert(rest.filter(secret_line_fn()).push(l).map_values(emap) =~= rest.filter(
                secret_line_fn(),
            ).map_values(emap).push(line_entry(l)));
            assert(ls.filter_map(parse_line_fn()) == rest.filter_map(parse_line_fn()) + seq![
                line_entry(l),
            ]);
            assert(rest.filter_map(parse_line_fn()) + seq![line_entry(l)] =~= rest.filter_map(
                parse_line_fn(),
            ).push(line_entry(l)));
        } else {
            assert(ls.filter(secret_line_fn()) == rest.filter(secret_line_fn()));
            assert(ls.filter_map(parse_line_fn()) == rest.filter_map(parse_line_fn()));
        }
    }
}

/// Parse one line of the secrets file.
pub fn parse_line_bytes(line: &Vec<u8>) -> (r: Option<SecretEntry>)
    ensures
        (match r {
            Some(e) => parse_line(line@) == Some((e.key@, e.value@)),
            None => parse_line(line@) is None,
        }),
{
    let t = trim_bytes(line);
    if t.len() == 0 {
        return None;
    }
    if t[0] == HASH {
        return None;
    }
    match find_byte(&t, 0, EQ) {
        None => None,
        Some(i) => {
            proof {
                lemma_find_from_props(t@, 0, EQ);
                assert(t@.subrange(0, i as int) =~= t@.take(i as int));
                assert(t@.subrange(i + 1, t@.len() as int) =~= t@.skip(i + 1));
            }
            let head = copy_range(&t, 0, i);
            let tail = copy_range(&t, i + 1, t.len());
            let k = trim_bytes(&head);
            let v = trim_bytes(&tail);
            Some(SecretEntry { key: k, value: v })
        },
    }
}

/// Parse the whole secrets text: one entry per non-blank, non-comment line
/// that holds a `=`, in file order; all other lines yield nothing.
pub fn parse_secrets(content: &Vec<u8>) -> (r: Vec<SecretEntry>)
    ensures
        entries_view(r@) == parse_entries(content@),
{
    let mut out: Vec<SecretEntry> = Vec::new();
    let mut pos: usize = 0;
    proof {
        assert(content@.skip(0) =~= content@);
        assert(entries_view(out@) =~= Seq::<(Seq<u8>, Seq<u8>)>::empty());
    }
    while pos < content.len()
        invariant
            pos <= content@.len(),
            parse_entries(content@) == entries_view(out@) + parse_entries(
                content@.skip(pos as int),
            ),
        decreases content@.len() - pos,
    {
        let ghost prev_pos = pos as int;
        let j_opt = find_byte(content, pos, NL);
        let hi: usize = match j_opt {
            Some(j) => j,
            None => content.len(),
        };
        let line = copy_range(content, pos, hi);
        proof {
            let c = content@;
            lemma_find_from_skip(c, prev_pos, NL);
            let tail = c.skip(prev_pos);
            assert(line@ =~= tail.take(hi - prev_pos));
            match j_opt {
                Some(j) => {
                    lemma_find_from_props(c, prev_pos, NL);
                    assert(find_from(tail, 0, NL) == Some(hi - prev_pos));
                    assert(line_seqs(tail) == seq![line@] + line_seqs(tail.skip(hi - prev_pos + 1)));
                    assert(tail.skip(hi - prev_pos + 1) =~= c.skip(hi + 1));
                },
                None => {
                    assert(find_from(tail, 0, NL) is None);
                    assert(line_seqs(tail) == seq![line@]);
                    assert(line_seqs(tail) =~= seq![line@] + Seq::<Seq<u8>>::empty());
                    lemma_filter_map_distributes(
                        seq![line@],
                        Seq::<Seq<u8>>::empty(),
                        parse_line_fn(),
                    );
                    assert(c.skip(c.len() as int) =~= Seq::<u8>::empty());
                    assert(find_from(Seq::<u8>::empty(), 0, NL) is None);
                    assert(line_seqs(Seq::<u8>::empty()) == seq![Seq::<u8>::empty()]);
                    assert(trim(Seq::<u8>::empty()).len() == 0);
                    Seq::<Seq<u8>>::lemma_filter_map_singleton(
                        Seq::<u8>::empty(),
                        parse_line_fn(),
                    );
                    assert(parse_entries(Seq::<u8>::empty()) =~= Seq::<(Seq<u8>, Seq<u8>)>::empty());
                },
            }
            Seq::<Seq<u8>>::lemma_filter_map_singleton(line@, parse_line_fn());
        }
        let entry = parse_line_bytes(&line);
        match entry {
            Some(e) => {
                proof {
                    assert(entries_view(out@.push(e)) =~= entries_view(out@).push(
                        (e.key@, e.value@),
                    ));
                    assert(seq![line@].filter_map(parse_line_fn()) =~= seq![(e.key@, e.value@)]);
                    assert(entries_view(out@).push((e.key@, e.value@)) =~= entries_view(out@)
                        + seq![(e.key@, e.value@)]);
                }
                out.push(e);
            },
            None => {
                proof {
                    assert(seq![line@].filter_map(parse_line_fn()) =~= Seq::<(
                        Seq<u8>,
                        Seq<u8>,
                    )>::empty());
                }
            },
        }
        match j_opt {
            Some(j) => {
                pos = j + 1;
            },
            None => {
                pos = content.len();
            },
        }
        proof {
            let c = content@;
            let tail = c.skip(prev_pos);
            let rest = line_seqs(tail).skip(1);
            assert(seq![line@] + rest =~= line_seqs(tail));
            lemma_filter_map_distributes(seq![line@], rest, parse_line_fn());
            assert(line_seqs(tail).filter_map(parse_line_fn()) == seq![line@].filter_map(
                parse_line_fn(),
            ) + rest.filter_map(parse_line_fn()));
            match j_opt {
                Some(j) => {
                    assert(rest =~= line_seqs(c.skip(pos as int)));
                },
                None => {
                    assert(rest =~= Seq::<Seq<u8>>::empty());
                    assert(Seq::<Seq<u8>>::empty().filter_map(parse_line_fn()) =~= Seq::<(
                        Seq<u8>,
                        Seq<u8>,
                    )>::empty());
                    assert(parse_entries(c.skip(pos as int)) =~= Seq::<(Seq<u8>, Seq<u8>)>::empty());
                },
            }
            assert(parse_entries(c.skip(prev_pos)) == seq![line@].filter_map(parse_line_fn())
                + parse_entries(c.skip(pos as int)));
        }
    }
    proof {
        let c = content@;
        assert(c.skip(pos as int) =~= Seq::<u8>::empty());
        assert(find_from(Seq::<u8>::empty(), 0, NL) is None);
        assert(line_seqs(Seq::<u8>::empty()) == seq![Seq::<u8>::empty()]);
        Seq::<Seq<u8>>::lemma_filter_map_singleton(Seq::<u8>::empty(), parse_line_fn());
        assert(trim(Seq::<u8>::empty()).len() == 0);
        assert(parse_entries(Seq::<u8>::empty()) =~= Seq::<(Seq<u8>, Seq<u8>)>::empty());
        assert(entries_view(out@) + parse_entries(c.skip(pos as int)) =~= entries_view(out@));
    }
    out
}

} // verus!
