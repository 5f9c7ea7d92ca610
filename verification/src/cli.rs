//! Decisions the command-line front end makes around the model calls: which
//! judge models form the panel, whether that panel only repeats the generation
//! model, which files are scored, how drafts are labelled and how work is
//! split into batches.
use vstd::prelude::*;
use crate::llm::{last_index, last_index_vec};
use crate::text::{
    chars_eq, chars_of, decimal, decimal_chars, join_with, str_views, string_of, subvec, trim, trim_vec,
};

verus! {

// ---------------------------------------------------------------------------
// Judge panel
// ---------------------------------------------------------------------------

/// The pieces of `s[pos..]` between commas, `cur` being the part of the current
/// piece read so far; the last piece runs to the end of the text, so a text
/// without commas is one piece (`str::split(',')`).
pub open spec fn comma_pieces_acc(s: Seq<char>, pos: int, cur: Seq<char>) -> Seq<Seq<char>>
    decreases s.len() - pos,
{
    if pos >= s.len() {
        seq![cur]
    } else if s[pos] == ',' {
        seq![cur] + comma_pieces_acc(s, pos + 1, seq![])
    } else {
        comma_pieces_acc(s, pos + 1, cur.push(s[pos]))
    }
}

pub open spec fn comma_pieces(s: Seq<char>) -> Seq<Seq<char>> {
    comma_pieces_acc(s, 0, seq![])
}

/// The pieces trimmed, the empty ones left out, in order.
pub open spec fn kept_names(ps: Seq<Seq<char>>) -> Seq<Seq<char>>
    decreases ps.len(),
{
    if ps.len() == 0 {
        seq![]
    } else {
        let t = trim(ps[0]);
        (if t.len() > 0 {
            seq![t]
        } else {
            seq![]
        }) + kept_names(ps.drop_first())
    }
}

/// The judge models named by a comma-separated list.
pub open spec fn model_list(s: Seq<char>) -> Seq<Seq<char>> {
    kept_names(comma_pieces(s))
}

/// Keeping names works piece by piece, so it distributes over concatenation.
pub proof fn lemma_kept_names_concat(a: Seq<Seq<char>>, b: Seq<Seq<char>>)
    ensures
        kept_names(a + b) == kept_names(a) + kept_names(b),
    decreases a.len(),
{
    if a.len() == 0 {
        assert(a + b =~= b);
        assert(kept_names(a) + kept_names(b) =~= kept_names(b));
    } else {
        assert((a + b).drop_first() =~= a.drop_first() + b);
        assert((a + b)[0] == a[0]);
        lemma_kept_names_concat(a.drop_first(), b);
        let t = trim(a[0]);
        let head: Seq<Seq<char>> = if t.len() > 0 {
            seq![t]
        } else {
            seq![]
        };
        assert(head + (kept_names(a.drop_first()) + kept_names(b)) =~= (head + kept_names(
            a.drop_first(),
        )) + kept_names(b));
    }
}

fn push_kept(out: &mut Vec<String>, cur: &Vec<char>)
    ensures
        str_views(final(out)@) == str_views(old(out)@) + kept_names(seq![cur@]),
{
    let ghost before = str_views(out@);
    let t = trim_vec(cur);
    assert(seq![cur@].drop_first() =~= Seq::<Seq<char>>::empty());
    assert(kept_names(Seq::<Seq<char>>::empty()) =~= Seq::<Seq<char>>::empty());
    if t.len() > 0 {
        out.push(string_of(&t));
        assert(str_views(out@) =~= before + seq![t@]);
        assert(kept_names(seq![cur@]) =~= seq![t@]);
    } else {
        assert(kept_names(seq![cur@]) =~= Seq::<Seq<char>>::empty());
        assert(str_views(out@) =~= before + Seq::<Seq<char>>::empty());
    }
}

/// The judge models of a comma-separated `--judge-model` value: each piece
/// trimmed, blank pieces dropped, order kept.
pub fn judge_models(list: &str) -> (r: Vec<String>)
    ensures
        str_views(r@) == model_list(list@),
{
    let s = chars_of(list);
    let mut out: Vec<String> = Vec::new();
    let mut cur: Vec<char> = Vec::new();
    let mut i: usize = 0;
    assert(str_views(out@) =~= Seq::<Seq<char>>::empty());
    assert(Seq::<Seq<char>>::empty() + model_list(list@) =~= model_list(list@));
    while i < s.len()
        invariant
            i <= s.len(),
            s@ == list@,
            str_views(out@) + kept_names(comma_pieces_acc(s@, i as int, cur@)) == model_list(list@),
        decreases s.len() - i,
    {
        if s[i] == ',' {
            let ghost rest = comma_pieces_acc(s@, i + 1, seq![]);
            proof {
                lemma_kept_names_concat(seq![cur@], rest);
            }
            let ghost before = str_views(out@);
            let ghost c0 = cur@;
            push_kept(&mut out, &cur);
            cur = Vec::new();
            assert(cur@ =~= seq![]);
            assert(before + (kept_names(seq![c0]) + kept_names(rest)) =~= str_views(out@)
                + kept_names(rest));
        } else {
            cur.push(s[i]);
        }
        i += 1;
    }
    let ghost before = str_views(out@);
    push_kept(&mut out, &cur);
    out
}

pub open spec fn opt_chars(o: Option<&str>) -> Option<Seq<char>> {
    match o {
        Some(s) => Some(s@),
        None => None,
    }
}

/// The judging is done by the generation model alone: no judge model was named,
/// or every judge model named is the generation model (at least one named).
pub open spec fn panel_repeats_model(model: Option<Seq<char>>, judge_model: Option<Seq<char>>) -> bool {
    match judge_model {
        None => true,
        Some(j) => match model {
            None => false,
            Some(m) => {
                let l = model_list(j);
                l.len() > 0 && forall|i: int| 0 <= i < l.len() ==> #[trigger] l[i] == m
            },
        },
    }
}

/// Whether the judging would score the generator's own writing, however often
/// the same model is repeated in the `--judge-model` list.
pub fn judge_model_matches_gen(model: Option<&str>, judge_model: Option<&str>) -> (r: bool)
    ensures
        r == panel_repeats_model(opt_chars(model), opt_chars(judge_model)),
{
    match judge_model {
        None => true,
        Some(j) => match model {
            None => false,
            Some(m) => {
                let l = judge_models(j);
                let mv = chars_of(m);
                if l.len() == 0 {
                    return false;
                }
                let mut i: usize = 0;
                while i < l.len()
                    invariant
                        i <= l.len(),
                        model == Some(m),
                        judge_model == Some(j),
                        mv@ == m@,
                        str_views(l@) == model_list(j@),
                        forall|k: int| 0 <= k < i ==> #[trigger] model_list(j@)[k] == m@,
                    decreases l.len() - i,
                {
                    let e = chars_of(l[i].as_str());
                    assert(str_views(l@)[i as int] == l@[i as int]@);
                    if !chars_eq(&e, &mv) {
                        assert(model_list(j@)[i as int] != m@);
                        return false;
                    }
                    i += 1;
                }
                true
            },
        },
    }
}

/// Splitting depends only on the text from the current position on.
proof fn lemma_pieces_shift(x: Seq<char>, y: Seq<char>, i: int, cur: Seq<char>)
    requires
        0 <= i <= y.len(),
    ensures
        comma_pieces_acc(x + y, x.len() + i, cur) == comma_pieces_acc(y, i, cur),
    decreases y.len() - i,
{
    if i < y.len() {
        assert((x + y)[x.len() + i] == y[i]);
        if y[i] == ',' {
            lemma_pieces_shift(x, y, i + 1, seq![]);
        } else {
            lemma_pieces_shift(x, y, i + 1, cur.push(y[i]));
        }
    }
}

/// Splitting `a,b` gives the pieces of `a` followed by the pieces of `b`.
proof fn lemma_pieces_of_joined(a: Seq<char>, b: Seq<char>, i: int, cur: Seq<char>)
    requires
        0 <= i <= a.len(),
    ensures
        comma_pieces_acc(a + ","@ + b, i, cur) == comma_pieces_acc(a, i, cur) + comma_pieces(b),
    decreases a.len() - i,
{
    reveal_strlit(",");
    let s = a + ","@ + b;
    if i == a.len() {
        assert(s[i] == ',');
        assert(s =~= (a + ","@) + b);
        lemma_pieces_shift(a + ","@, b, 0, seq![]);
        assert((a + ","@).len() + 0 == i + 1);
    } else {
        assert(s[i] == a[i]);
        if a[i] == ',' {
            lemma_pieces_of_joined(a, b, i + 1, seq![]);
            assert(seq![cur] + (comma_pieces_acc(a, i + 1, seq![]) + comma_pieces(b)) =~= (seq![cur]
                + comma_pieces_acc(a, i + 1, seq![])) + comma_pieces(b));
        } else {
            lemma_pieces_of_joined(a, b, i + 1, cur.push(a[i]));
        }
    }
}

/// A text without commas is a single piece.
proof fn lemma_pieces_without_comma(p: Seq<char>, i: int, cur: Seq<char>)
    requires
        0 <= i <= p.len(),
        !p.contains(','),
    ensures
        comma_pieces_acc(p, i, cur) == seq![cur + p.skip(i)],
    decreases p.len() - i,
{
    if i < p.len() {
        assert(p[i] != ',');
        lemma_pieces_without_comma(p, i + 1, cur.push(p[i]));
        assert(cur.push(p[i]) + p.skip(i + 1) =~= cur + p.skip(i));
    } else {
        assert(cur + p.skip(i) =~= cur);
    }
}

/// Pieces without commas, joined with commas, split back into themselves.
proof fn lemma_split_join(ls: Seq<Seq<char>>)
    requires
        ls.len() > 0,
        forall|i: int| 0 <= i < ls.len() ==> !(#[trigger] ls[i]).contains(','),
    ensures
        comma_pieces(join_with(ls, ","@)) == ls,
    decreases ls.len(),
{
    if ls.len() == 1 {
        lemma_pieces_without_comma(ls[0], 0, seq![]);
        assert(seq![] + ls[0].skip(0) =~= ls[0]);
        assert(seq![ls[0]] =~= ls);
    } else {
        let init = ls.drop_last();
        assert forall|i: int| 0 <= i < init.len() implies !(#[trigger] init[i]).contains(',') by {
            assert(init[i] == ls[i]);
        }
        lemma_split_join(init);
        lemma_pieces_of_joined(join_with(init, ","@), ls.last(), 0, seq![]);
        lemma_pieces_without_comma(ls.last(), 0, seq![]);
        assert(seq![] + ls.last().skip(0) =~= ls.last());
        assert(init + seq![ls.last()] =~= ls);
    }
}

/// Each kept name is the trimmed, non-empty form of some piece, and a piece
/// that trims to something non-empty leaves a name.
proof fn lemma_kept_names_members(ps: Seq<Seq<char>>)
    ensures
        forall|k: int| 0 <= k < kept_names(ps).len() ==> exists|i: int|
            0 <= i < ps.len() && #[trigger] kept_names(ps)[k] == trim(#[trigger] ps[i]) && trim(
                ps[i],
            ).len() > 0,
        (exists|i: int| 0 <= i < ps.len() && trim(#[trigger] ps[i]).len() > 0) ==> kept_names(
            ps,
        ).len() > 0,
    decreases ps.len(),
{
    if ps.len() > 0 {
        let rest = ps.drop_first();
        lemma_kept_names_members(rest);
        let t = trim(ps[0]);
        let head: Seq<Seq<char>> = if t.len() > 0 {
            seq![t]
        } else {
            seq![]
        };
        let kn = kept_names(ps);
        assert(kn == head + kept_names(rest));
        assert forall|k: int| 0 <= k < kn.len() implies exists|i: int|
            0 <= i < ps.len() && #[trigger] kn[k] == trim(#[trigger] ps[i]) && trim(ps[i]).len()
                > 0 by {
            if k < head.len() {
                assert(kn[k] == trim(ps[0]));
            } else {
                let k2 = k - head.len();
                assert(kn[k] == kept_names(rest)[k2]);
                let i2 = choose|i2: int|
                    0 <= i2 < rest.len() && #[trigger] kept_names(rest)[k2] == trim(
                        #[trigger] rest[i2],
                    ) && trim(rest[i2]).len() > 0;
                assert(rest[i2] == ps[i2 + 1]);
            }
        }
        if exists|i: int| 0 <= i < ps.len() && trim(#[trigger] ps[i]).len() > 0 {
            let i = choose|i: int| 0 <= i < ps.len() && trim(#[trigger] ps[i]).len() > 0;
            if i > 0 {
                assert(rest[i - 1] == ps[i]);
            }
        }
    }
}

/// A judge list that names only the generation model, however often and with
/// whatever spacing or blank entries, is recognised as self-scoring.
pub proof fn law_repeated_model_panel_is_self_scoring(m: Seq<char>, pieces: Seq<Seq<char>>)
    requires
        forall|i: int| 0 <= i < pieces.len() ==> !(#[trigger] pieces[i]).contains(','),
        forall|i: int|
            0 <= i < pieces.len() ==> trim(#[trigger] pieces[i]) == m || trim(pieces[i]).len()
                == 0,
        exists|i: int| 0 <= i < pieces.len() && trim(#[trigger] pieces[i]) == m,
        m.len() > 0,
    ensures
        panel_repeats_model(Some(m), Some(join_with(pieces, ","@))),
{
    lemma_split_join(pieces);
    lemma_kept_names_members(pieces);
    let l = model_list(join_with(pieces, ","@));
    assert(l == kept_names(pieces));
    let i0 = choose|i: int| 0 <= i < pieces.len() && trim(#[trigger] pieces[i]) == m;
    assert(trim(pieces[i0]).len() > 0);
    assert forall|k: int| 0 <= k < l.len() implies #[trigger] l[k] == m by {
        let i = choose|i: int|
            0 <= i < pieces.len() && #[trigger] kept_names(pieces)[k] == trim(#[trigger] pieces[i])
                && trim(pieces[i]).len() > 0;
    }
}

/// A judge list that names any model other than the generation model is not
/// self-scoring.
pub proof fn law_other_model_in_panel_is_not_self_scoring(
    m: Seq<char>,
    pieces: Seq<Seq<char>>,
    other: int,
)
    requires
        forall|i: int| 0 <= i < pieces.len() ==> !(#[trigger] pieces[i]).contains(','),
        0 <= other < pieces.len(),
        trim(pieces[other]).len() > 0,
        trim(pieces[other]) != m,
    ensures
        !panel_repeats_model(Some(m), Some(join_with(pieces, ","@))),
{
    lemma_split_join(pieces);
    lemma_kept_names_concat(pieces.take(other), pieces.skip(other));
    assert(pieces.take(other) + pieces.skip(other) =~= pieces);
    let tail = pieces.skip(other);
    assert(tail[0] == pieces[other]);
    let l = model_list(join_with(pieces, ","@));
    let k = kept_names(pieces.take(other)).len() as int;
    assert(kept_names(tail)[0] == trim(pieces[other]));
    assert(l[k] == trim(pieces[other]));
}

// ---------------------------------------------------------------------------
// Documents to score
// ---------------------------------------------------------------------------

/// The extension of a file name: the text after its last `.`, when that dot is
/// not the first character.
pub open spec fn extension_of(name: Seq<char>) -> Option<Seq<char>> {
    let d = last_index(name, '.');
    if d > 0 {
        Some(name.skip(d + 1))
    } else {
        None
    }
}

/// A file of a scored directory is read when its extension is `md` or `txt`
/// and it is not the report the tool writes itself.
pub open spec fn scorable_doc_name(name: Seq<char>) -> bool {
    (extension_of(name) == Some("md"@) || extension_of(name) == Some("txt"@)) && name
        != "report.md"@
}

/// Whether a file of a scored directory, by its file name, is a document to score.
pub fn is_scorable_doc_name(name: &str) -> (r: bool)
    ensures
        r == scorable_doc_name(name@),
{
    let v = chars_of(name);
    let md = chars_of("md");
    let txt = chars_of("txt");
    let report = chars_of("report.md");
    if chars_eq(&v, &report) {
        return false;
    }
    match last_index_vec(&v, '.') {
        Some(d) => {
            if d == 0 {
                return false;
            }
            let ext = subvec(&v, d + 1, v.len());
            assert(ext@ =~= v@.skip(d + 1));
            chars_eq(&ext, &md) || chars_eq(&ext, &txt)
        },
        None => false,
    }
}

// ---------------------------------------------------------------------------
// Labels and batches
// ---------------------------------------------------------------------------

/// `d` padded with a leading zero to at least two digits.
pub open spec fn pad2(d: Seq<char>) -> Seq<char> {
    if d.len() < 2 {
        seq!['0'] + d
    } else {
        d
    }
}

/// The label of the draft at 0-based position `i`: `cand01`, `cand02`, ...
pub open spec fn candidate_label_spec(i: nat) -> Seq<char> {
    "cand"@ + pad2(decimal(i + 1))
}

/// `prefix` followed by the 1-based position `i + 1`, padded to two digits.
pub fn numbered_label(prefix: &str, i: usize) -> (r: String)
    requires
        i < usize::MAX,
    ensures
        r@ == prefix@ + pad2(decimal(i as nat + 1)),
{
    let d = decimal_chars(i + 1);
    let mut v = chars_of(prefix);
    let ghost p = v@;
    if d.len() < 2 {
        v.push('0');
    }
    crate::checks::push_all(&mut v, &d);
    proof {
        if d@.len() < 2 {
            assert(v@ =~= p + (seq!['0'] + d@));
        } else {
            assert(v@ =~= p + d@);
        }
    }
    string_of(&v)
}

pub fn candidate_label(i: usize) -> (r: String)
    requires
        i < usize::MAX,
    ensures
        r@ == candidate_label_spec(i as nat),
{
    numbered_label("cand", i)
}

/// The sizes of the batches `n` items are run in, `width` at a time: full
/// batches, then what is left.
pub open spec fn batches(width: usize, n: usize) -> Seq<usize>
    decreases n,
{
    if n == 0 || width == 0 {
        seq![]
    } else {
        let t: usize = if width < n {
            width
        } else {
            n
        };
        seq![t] + batches(width, (n - t) as usize)
    }
}

/// The batch width a concurrency setting gives: at least one.
pub open spec fn batch_width(concurrency: usize) -> usize {
    if concurrency == 0 {
        1
    } else {
        concurrency
    }
}

/// The sizes of the batches that `n` items are run in, `concurrency` at a time
/// (a concurrency of 0 counts as 1).
pub fn batch_sizes(concurrency: usize, n: usize) -> (r: Vec<usize>)
    ensures
        r@ == batches(batch_width(concurrency), n),
{
    let w: usize = if concurrency == 0 {
        1
    } else {
        concurrency
    };
    let mut out: Vec<usize> = Vec::new();
    let mut rest: usize = n;
    assert(out@ + batches(w, rest) =~= batches(w, n));
    while rest > 0
        invariant
            w == batch_width(concurrency),
            w >= 1,
            out@ + batches(w, rest) == batches(w, n),
        decreases rest,
    {
        let t: usize = if w < rest {
            w
        } else {
            rest
        };
        let ghost o = out@;
        out.push(t);
        assert(o + batches(w, rest) =~= out@ + batches(w, (rest - t) as usize));
        rest = rest - t;
    }
    assert(out@ + batches(w, rest) =~= out@);
    out
}


/// The total of a sequence of sizes.
pub open spec fn total_of(s: Seq<usize>) -> int
    decreases s.len(),
{
    if s.len() == 0 {
        0
    } else {
        s[0] + total_of(s.drop_first())
    }
}

/// Every item is run exactly once: the batches add up to the number of items,
/// none is empty and none is wider than the concurrency allows.
pub proof fn law_batches_cover_items(width: usize, n: usize)
    requires
        width >= 1,
    ensures
        total_of(batches(width, n)) == n,
        forall|i: int| 0 <= i < batches(width, n).len() ==> 1 <= #[trigger] batches(width, n)[i] <= width,
    decreases n,
{
    if n > 0 {
        let t: usize = if width < n {
            width
        } else {
            n
        };
        law_batches_cover_items(width, (n - t) as usize);
        let b = batches(width, n);
        assert(b == seq![t] + batches(width, (n - t) as usize));
        assert(b.drop_first() =~= batches(width, (n - t) as usize));
        assert forall|i: int| 0 <= i < b.len() implies 1 <= #[trigger] b[i] <= width by {
            if i > 0 {
                assert(b[i] == batches(width, (n - t) as usize)[i - 1]);
            }
        }
    }
}

} // verus!
