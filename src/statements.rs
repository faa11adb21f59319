//! Splitting a query text into statements, and telling reads from writes.
use vstd::prelude::*;
use crate::model::strings_view;
use crate::text::{is_ws, trim, trim_str, lemma_trim_blank, lemma_trim_edges};

verus! {

/// The pieces of `s` between occurrences of `sep`, as `str::split` yields them.
pub open spec fn split_on(s: Seq<char>, sep: char) -> Seq<Seq<char>>
    decreases s.len(),
{
    if s.len() == 0 {
        seq![Seq::empty()]
    } else {
        let rest = split_on(s.drop_last(), sep);
        if s.last() == sep {
            rest.push(Seq::empty())
        } else {
            rest.update(rest.len() - 1, rest.last().push(s.last()))
        }
    }
}

/// The trimmed, non-empty pieces of `frags`, in order.
pub open spec fn statements_of(frags: Seq<Seq<char>>) -> Seq<Seq<char>>
    decreases frags.len(),
{
    if frags.len() == 0 {
        Seq::empty()
    } else {
        let t = trim(frags.last());
        statements_of(frags.drop_last()) + if t.len() > 0 {
            seq![t]
        } else {
            Seq::empty()
        }
    }
}

/// The statements of a query text: its `;`-separated pieces, trimmed, with
/// the empty ones left out.
pub open spec fn split_spec(s: Seq<char>) -> Seq<Seq<char>> {
    statements_of(split_on(s, ';'))
}

pub proof fn lemma_split_on_nonempty(s: Seq<char>, sep: char)
    ensures
        split_on(s, sep).len() >= 1,
    decreases s.len(),
{
    if s.len() > 0 {
        lemma_split_on_nonempty(s.drop_last(), sep);
    }
}

/// A text made only of whitespace and semicolons holds no statement.
pub proof fn lemma_blank_text_has_no_statements(s: Seq<char>)
    requires
        forall|k: int| 0 <= k < s.len() ==> is_ws(#[trigger] s[k]) || s[k] == ';',
    ensures
        split_spec(s).len() == 0,
        forall|i: int, k: int|
            0 <= i < split_on(s, ';').len() && 0 <= k < split_on(s, ';')[i].len() ==> is_ws(
                #[trigger] split_on(s, ';')[i][k],
            ),
    decreases s.len(),
{
    let frags = split_on(s, ';');
    if s.len() > 0 {
        let p = s.drop_last();
        assert forall|k: int| 0 <= k < p.len() implies is_ws(#[trigger] p[k]) || p[k] == ';' by {
            assert(p[k] == s[k]);
        }
        lemma_blank_text_has_no_statements(p);
        lemma_split_on_nonempty(p, ';');
        let rest = split_on(p, ';');
        if s.last() != ';' {
            assert forall|i: int, k: int|
                0 <= i < frags.len() && 0 <= k < frags[i].len() implies is_ws(
                #[trigger] frags[i][k],
            ) by {
                if i == rest.len() - 1 && k == rest.last().len() {
                    assert(frags[i][k] == s.last());
                } else {
                    assert(frags[i][k] == rest[i][k]);
                }
            }
        }
    }
    lemma_statements_of_blank(frags);
}

proof fn lemma_statements_of_blank(frags: Seq<Seq<char>>)
    requires
        forall|i: int, k: int|
            0 <= i < frags.len() && 0 <= k < frags[i].len() ==> is_ws(#[trigger] frags[i][k]),
    ensures
        statements_of(frags).len() == 0,
    decreases frags.len(),
{
    if frags.len() > 0 {
        let q = frags.drop_last();
        assert forall|i: int, k: int|
            0 <= i < q.len() && 0 <= k < q[i].len() implies is_ws(#[trigger] q[i][k]) by {
            assert(q[i] == frags[i]);
        }
        lemma_statements_of_blank(q);
        let l = frags.last();
        assert forall|k: int| 0 <= k < l.len() implies is_ws(#[trigger] l[k]) by {
            assert(frags[frags.len() - 1][k] == l[k]);
        }
        lemma_trim_blank(l);
    }
}

fn push_trimmed(out: &mut Vec<String>, piece: &str)
    ensures
        strings_view(final(out)@) == strings_view(old(out)@) + if trim(piece@).len() > 0 {
            seq![trim(piece@)]
        } else {
            Seq::empty()
        },
{
    let t = trim_str(piece);
    if t.unicode_len() > 0 {
        out.push(String::from_str(t));
        assert(strings_view(final(out)@) =~= strings_view(old(out)@) + seq![trim(piece@)]);
    } else {
        assert(strings_view(final(out)@) =~= strings_view(old(out)@));
    }
}

/// Splits a query text on `;` into trimmed, non-empty statements, in order.
pub fn split_statements(query: &str) -> (r: Vec<String>)
    ensures
        strings_view(r@) == split_spec(query@),
        forall|i: int| 0 <= i < r@.len() ==> (#[trigger] r@[i])@.len() > 0,
{
    let n = query.unicode_len();
    let mut out: Vec<String> = Vec::new();
    let mut start: usize = 0;
    let mut i: usize = 0;
    let ghost mut done: Seq<Seq<char>> = Seq::empty();
    assert(query@.subrange(0, 0) =~= Seq::<char>::empty());
    assert(split_on(query@.subrange(0, 0), ';') =~= done.push(query@.subrange(0, 0)));
    while i < n
        invariant
            n == query@.len(),
            start <= i <= n,
            split_on(query@.subrange(0, i as int), ';') == done.push(
                query@.subrange(start as int, i as int),
            ),
            strings_view(out@) == statements_of(done),
        decreases n - i,
    {
        let c = query.get_char(i);
        let ghost pre = query@.subrange(0, i as int);
        let ghost cur = query@.subrange(0, i + 1);
        assert(cur.drop_last() =~= pre);
        assert(cur.last() == c);
        if c == ';' {
            let piece = query.substring_char(start, i);
            push_trimmed(&mut out, piece);
            proof {
                let old_done = done;
                done = done.push(query@.subrange(start as int, i as int));
                assert(done.drop_last() =~= old_done);
                assert(query@.subrange(i + 1, i + 1) =~= Seq::<char>::empty());
                assert(split_on(cur, ';') =~= done.push(query@.subrange(i + 1, i + 1)));
            }
            start = i + 1;
        } else {
            proof {
                assert(query@.subrange(start as int, i + 1) =~= query@.subrange(
                    start as int,
                    i as int,
                ).push(c));
                assert(split_on(cur, ';') =~= done.push(query@.subrange(start as int, i + 1)));
            }
        }
        i = i + 1;
    }
    let piece = query.substring_char(start, n);
    push_trimmed(&mut out, piece);
    proof {
        let all = done.push(query@.subrange(start as int, n as int));
        assert(query@.subrange(0, n as int) =~= query@);
        assert(all.drop_last() =~= done);
        assert(strings_view(out@) =~= statements_of(all));
        assert forall|k: int| 0 <= k < out@.len() implies (#[trigger] out@[k])@.len() > 0 by {
            lemma_statements_nonempty(all, k);
            assert(strings_view(out@)[k] == out@[k]@);
        }
    }
    out
}

/// Every statement of a query text is one of its `;`-separated pieces,
/// trimmed: it is not empty and neither begins nor ends with whitespace, so
/// no whitespace-only piece is ever run.
pub proof fn lemma_statements_are_trimmed(s: Seq<char>)
    ensures
        forall|i: int|
            0 <= i < split_spec(s).len() ==> (#[trigger] split_spec(s)[i]).len() > 0 && !is_ws(
                split_spec(s)[i][0],
            ) && !is_ws(split_spec(s)[i].last()),
{
    lemma_statements_of_trimmed(split_on(s, ';'));
}

proof fn lemma_statements_of_trimmed(frags: Seq<Seq<char>>)
    ensures
        forall|i: int|
            0 <= i < statements_of(frags).len() ==> (#[trigger] statements_of(frags)[i]).len() > 0
                && !is_ws(statements_of(frags)[i][0]) && !is_ws(statements_of(frags)[i].last()),
    decreases frags.len(),
{
    if frags.len() > 0 {
        lemma_statements_of_trimmed(frags.drop_last());
        lemma_trim_edges(frags.last());
        let pre = statements_of(frags.drop_last());
        assert forall|i: int| 0 <= i < statements_of(frags).len() implies (#[trigger] statements_of(
            frags,
        )[i]).len() > 0 && !is_ws(statements_of(frags)[i][0]) && !is_ws(
            statements_of(frags)[i].last(),
        ) by {
            if i < pre.len() {
                assert(statements_of(frags)[i] == pre[i]);
            } else {
                assert(statements_of(frags)[i] == trim(frags.last()));
            }
        }
    }
}

proof fn lemma_statements_nonempty(frags: Seq<Seq<char>>, k: int)
    requires
        0 <= k < statements_of(frags).len(),
    ensures
        statements_of(frags)[k].len() > 0,
    decreases frags.len(),
{
    if frags.len() > 0 {
        let pre = statements_of(frags.drop_last());
        if k < pre.len() {
            lemma_statements_nonempty(frags.drop_last(), k);
        }
    }
}

/// Whether `s` begins with `prefix`.
pub open spec fn has_prefix(s: Seq<char>, prefix: Seq<char>) -> bool {
    prefix.len() <= s.len() && s.subrange(0, prefix.len() as int) == prefix
}

/// The lowercase form of `s`, as `str::to_lowercase` maps it (Unicode rules).
pub uninterp spec fn lower_of(s: Seq<char>) -> Seq<char>;

/// Relies on `str::to_lowercase`: its result depends on the characters alone,
/// and an empty text stays empty.
#[verifier::external_body]
fn to_lower(s: &str) -> (r: String)
    ensures
        r@ == lower_of(s@),
        s@.len() == 0 ==> r@.len() == 0,
{
    s.to_lowercase()
}

/// Whether an already lowercased, trimmed statement reads rows: it begins with `select`.
pub fn is_select_lowered(lowered: &str) -> (r: bool)
    ensures
        r == has_prefix(lowered@, "select"@),
{
    let word = "select";
    proof {
        reveal_strlit("select");
    }
    let n = lowered.unicode_len();
    if n < 6 {
        return false;
    }
    let mut i: usize = 0;
    while i < 6
        invariant
            i <= 6,
            n == lowered@.len(),
            6 <= n,
            word@ == "select"@,
            word@.len() == 6,
            forall|k: int| 0 <= k < i ==> lowered@[k] == word@[k],
        decreases 6 - i,
    {
        if lowered.get_char(i) != word.get_char(i) {
            assert(lowered@.subrange(0, 6)[i as int] != word@[i as int]);
            return false;
        }
        i = i + 1;
    }
    assert(lowered@.subrange(0, 6) =~= word@);
    true
}

/// A statement is a read when its trimmed, lowercased text begins with `select`.
pub open spec fn is_read_spec(stmt: Seq<char>) -> bool {
    has_prefix(lower_of(trim(stmt)), "select"@)
}

/// Whether a statement reads rows (else it is run as a write).
pub fn is_select(stmt: &str) -> (r: bool)
    ensures
        r == is_read_spec(stmt@),
{
    let lowered = to_lower(trim_str(stmt));
    is_select_lowered(lowered.as_str())
}

} // verus!
