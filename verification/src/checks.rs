//! Deterministic document checks: front matter, headings, links, keyword
//! placement, paragraph length and the counts behind the readability scores.
//!
//! Document format: a `---` front matter block at the top holding `title:` /
//! `meta_description:`, followed by the markdown body.
use vstd::prelude::*;
use vstd::string::StrSliceExecFns;
use crate::content::{Section, Spec};
use crate::text::{
    decimal, fmt_usize, trim_start_vec_by, trim_end_vec_by, trim_end_by, is_ws, is_whitespace,
    is_hangul, is_hangul_syllable,
    ends_with, is_ascii_alpha, is_ascii_alphabetic, is_alphanumeric, lowercase, alphanumeric,
    to_lowercase, vec_ends_with,
    chars_eq, chars_of, lemma_next_index, lines, lines_of, trim_start, trim_start_vec, views, find_from, next_index, start_index_by, start_index_from, starts_with,
    starts_with_at, string_of, subvec, trim, trim_start_by, trim_vec, vec_starts_with, CharClass,
};

verus! {

pub open spec fn opt_view(o: Option<Vec<char>>) -> Option<Seq<char>> {
    match o {
        Some(v) => Some(v@),
        None => None,
    }
}

pub open spec fn opt_str_view(o: Option<String>) -> Option<Seq<char>> {
    match o {
        Some(v) => Some(v@),
        None => None,
    }
}

fn opt_string(o: Option<Vec<char>>) -> (r: Option<String>)
    ensures
        opt_str_view(r) == opt_view(o),
{
    match o {
        Some(v) => Some(string_of(&v)),
        None => None,
    }
}

// ---------------------------------------------------------------------------
// Front matter
// ---------------------------------------------------------------------------

/// A front matter value: trimmed, with one pair of matching `"` or `'` quotes removed.
pub open spec fn unquote_spec(s: Seq<char>) -> Seq<char> {
    let t = trim(s);
    if t.len() >= 2 && ((t[0] == '"' && t.last() == '"') || (t[0] == '\'' && t.last() == '\'')) {
        t.subrange(1, t.len() - 1)
    } else {
        t
    }
}

fn unquote(s: &Vec<char>) -> (r: Vec<char>)
    ensures
        r@ == unquote_spec(s@),
{
    let t = trim_vec(s);
    let n = t.len();
    if n >= 2 && ((t[0] == '"' && t[n - 1] == '"') || (t[0] == '\'' && t[n - 1] == '\'')) {
        subvec(&t, 1, n - 1)
    } else {
        t
    }
}

/// The title/meta pair after reading front matter line `t` (already trimmed).
pub open spec fn fm_update(t: Seq<char>, title: Option<Seq<char>>, meta: Option<Seq<char>>) -> (
    Option<Seq<char>>,
    Option<Seq<char>>,
) {
    if starts_with(t, "title:"@) {
        (Some(unquote_spec(trim(t.skip("title:"@.len() as int)))), meta)
    } else if starts_with(t, "meta_description:"@) {
        (title, Some(unquote_spec(trim(t.skip("meta_description:"@.len() as int)))))
    } else {
        (title, meta)
    }
}

/// Reads the front matter lines of `d` from `pos` (the current line began at
/// `ls`) up to the closing `---` line. Lines are the pieces between `'\n'`
/// separators, each compared after trimming. Yields the title, the meta
/// description and the index just after the closing line's separator, or
/// `None` when no closing line exists.
pub open spec fn fm_scan(
    d: Seq<char>,
    pos: int,
    ls: int,
    title: Option<Seq<char>>,
    meta: Option<Seq<char>>,
) -> Option<(Option<Seq<char>>, Option<Seq<char>>, int)>
    decreases d.len() + 1 - pos,
{
    if pos > d.len() {
        None
    } else if pos == d.len() || d[pos] == '\n' {
        let t = trim(d.subrange(ls, pos));
        if t == "---"@ {
            Some((title, meta, if pos < d.len() { pos + 1 } else { d.len() as int }))
        } else if pos == d.len() {
            None
        } else {
            let upd = fm_update(t, title, meta);
            fm_scan(d, pos + 1, pos + 1, upd.0, upd.1)
        }
    } else {
        fm_scan(d, pos + 1, ls, title, meta)
    }
}

/// Where the front matter of `d` ends: the title, meta description and the
/// index at which the body starts, or `None` when `d` has no complete front
/// matter (it must start with `---`, after any byte order marks, and have a
/// closing `---` line).
pub open spec fn front_matter_spec(d: Seq<char>) -> Option<(Option<Seq<char>>, Option<Seq<char>>, int)> {
    let b = d.len() - trim_start_by(d, CharClass::ByteOrderMark).len();
    if !starts_with(d.skip(b), "---"@) {
        None
    } else {
        let nl = next_index(d, '\n', b + "---"@.len());
        if nl >= d.len() {
            None
        } else {
            match fm_scan(d, nl + 1, nl + 1, None, None) {
                None => None,
                Some(r) => {
                    let body = trim_start_by(d.skip(r.2), CharClass::LineBreak);
                    Some((r.0, r.1, d.len() - body.len()))
                },
            }
        }
    }
}

/// The (title, meta description, body) that `parse_front_matter` returns.
pub open spec fn parse_front_matter_spec(d: Seq<char>) -> (Option<Seq<char>>, Option<Seq<char>>, Seq<char>) {
    match front_matter_spec(d) {
        None => (None, None, d),
        Some(r) => (r.0, r.1, d.skip(r.2)),
    }
}

proof fn lemma_fm_scan_bounds(
    d: Seq<char>,
    pos: int,
    ls: int,
    title: Option<Seq<char>>,
    meta: Option<Seq<char>>,
)
    requires
        0 <= pos <= d.len(),
    ensures
        fm_scan(d, pos, ls, title, meta) matches Some(r) ==> pos <= r.2 <= d.len(),
    decreases d.len() + 1 - pos,
{
    if pos == d.len() || d[pos] == '\n' {
        let t = trim(d.subrange(ls, pos));
        if t != "---"@ && pos < d.len() {
            let upd = fm_update(t, title, meta);
            lemma_fm_scan_bounds(d, pos + 1, pos + 1, upd.0, upd.1);
        }
    } else {
        lemma_fm_scan_bounds(d, pos + 1, ls, title, meta);
    }
}

/// Reads the front matter of `v`: see `front_matter_spec`.
fn front_matter(v: &Vec<char>) -> (r: Option<(Option<Vec<char>>, Option<Vec<char>>, usize)>)
    ensures
        match r {
            None => front_matter_spec(v@) is None,
            Some(x) => front_matter_spec(v@) == Some((opt_view(x.0), opt_view(x.1), x.2 as int))
                && x.2 <= v.len(),
        },
{
    let n = v.len();
    let b = start_index_by(v, CharClass::ByteOrderMark);
    assert(n - trim_start_by(v@, CharClass::ByteOrderMark).len() == b);
    let dashes = chars_of("---");
    if !starts_with_at(v, b, &dashes) {
        return None;
    }
    let a = b + dashes.len();
    let nl = find_from(v, '\n', a);
    if nl >= n {
        return None;
    }
    let rs = nl + 1;
    let title_key = chars_of("title:");
    let meta_key = chars_of("meta_description:");
    let mut pos = rs;
    let mut ls = rs;
    let mut title: Option<Vec<char>> = None;
    let mut meta: Option<Vec<char>> = None;
    let close: usize;
    let found: bool;
    loop
        invariant_except_break
            rs <= ls <= pos <= n,
            n == v.len(),
            title_key@ == "title:"@,
            meta_key@ == "meta_description:"@,
            dashes@ == "---"@,
            fm_scan(v@, pos as int, ls as int, opt_view(title), opt_view(meta)) == fm_scan(
                v@,
                rs as int,
                rs as int,
                None,
                None,
            ),
        ensures
            found ==> fm_scan(v@, rs as int, rs as int, None, None) == Some(
                (opt_view(title), opt_view(meta), close as int),
            ),
            !found ==> fm_scan(v@, rs as int, rs as int, None, None) is None,
            close <= n,
        decreases n - pos,
    {
        if pos == n || v[pos] == '\n' {
            let line = subvec(v, ls, pos);
            let t = trim_vec(&line);
            if chars_eq(&t, &dashes) {
                close = if pos < n {
                    pos + 1
                } else {
                    n
                };
                found = true;
                break ;
            }
            if pos == n {
                close = 0;
                found = false;
                break ;
            }
            if vec_starts_with(&t, &title_key) {
                let rest = subvec(&t, title_key.len(), t.len());
                assert(rest@ == t@.skip(title_key@.len() as int));
                let tr = trim_vec(&rest);
                title = Some(unquote(&tr));
            } else if vec_starts_with(&t, &meta_key) {
                let rest = subvec(&t, meta_key.len(), t.len());
                assert(rest@ == t@.skip(meta_key@.len() as int));
                let tr = trim_vec(&rest);
                meta = Some(unquote(&tr));
            }
            pos += 1;
            ls = pos;
        } else {
            pos += 1;
        }
    }
    if !found {
        return None;
    }
    proof {
        lemma_fm_scan_bounds(v@, rs as int, rs as int, None, None);
    }
    let start = start_index_from(v, close, CharClass::LineBreak);
    assert(v@.skip(start as int).len() == n - start);
    Some((title, meta, start))
}

/// Splits the front matter (`title` / `meta_description` between `---` lines)
/// from the body. When the document has no complete front matter the title and
/// meta description are absent and the body is the whole document.
pub fn parse_front_matter(doc: &str) -> (r: (Option<String>, Option<String>, &str))
    ensures
        (opt_str_view(r.0), opt_str_view(r.1), r.2@) == parse_front_matter_spec(doc@),
        doc@.len() - r.2@.len() >= 0,
        r.2@ == doc@.skip(doc@.len() - r.2@.len()),
{
    let v = chars_of(doc);
    match front_matter(&v) {
        None => (None, None, doc),
        Some((title, meta, start)) => {
            let n = doc.unicode_len();
            let body = doc.substring_char(start, n);
            assert(body@ =~= doc@.skip(start as int));
            (opt_string(title), opt_string(meta), body)
        },
    }
}

/// The document starts with `---` (after any byte order marks) but has no complete
/// front matter, so title and meta description could not be read.
pub open spec fn front_matter_unclosed_spec(d: Seq<char>) -> bool {
    let b = d.len() - trim_start_by(d, CharClass::ByteOrderMark).len();
    starts_with(d.skip(b), "---"@) && front_matter_spec(d) is None
}

fn front_matter_unclosed(v: &Vec<char>) -> (r: bool)
    ensures
        r == front_matter_unclosed_spec(v@),
{
    let b = start_index_by(v, CharClass::ByteOrderMark);
    let dashes = chars_of("---");
    if !starts_with_at(v, b, &dashes) {
        return false;
    }
    front_matter(v).is_none()
}


// ---------------------------------------------------------------------------
// Headings
// ---------------------------------------------------------------------------

/// The heading on `line`, if it is one: after leading whitespace, a run of 1 to 6
/// `#` followed by a space or by the end of the line. Yields the level and the
/// text after the `#` run, trimmed.
pub open spec fn heading_of(line: Seq<char>) -> Option<(int, Seq<char>)> {
    let t = trim_start(line);
    let rest = trim_start_by(t, CharClass::Hash);
    let level = t.len() - rest.len();
    if 1 <= level <= 6 && (level == t.len() || t[level] == ' ') {
        Some((level, trim(rest)))
    } else {
        None
    }
}

/// The headings among `ls`, in order.
pub open spec fn headings_of_lines(ls: Seq<Seq<char>>) -> Seq<(int, Seq<char>)>
    decreases ls.len(),
{
    if ls.len() == 0 {
        seq![]
    } else {
        headings_of_lines(ls.drop_last()) + match heading_of(ls.last()) {
            Some(h) => seq![h],
            None => seq![],
        }
    }
}

pub open spec fn headings_spec(body: Seq<char>) -> Seq<(int, Seq<char>)> {
    headings_of_lines(lines(body))
}

pub open spec fn heading_views(v: Seq<(usize, Vec<char>)>) -> Seq<(int, Seq<char>)> {
    Seq::new(v.len(), |i: int| (v[i].0 as int, v[i].1@))
}

pub open spec fn heading_str_views(v: Seq<(usize, String)>) -> Seq<(int, Seq<char>)> {
    Seq::new(v.len(), |i: int| (v[i].0 as int, v[i].1@))
}

fn heading_of_line(line: &Vec<char>) -> (r: Option<(usize, Vec<char>)>)
    ensures
        match r {
            None => heading_of(line@) is None,
            Some(h) => heading_of(line@) == Some((h.0 as int, h.1@)),
        },
{
    let t = trim_start_vec(line);
    let k = start_index_by(&t, CharClass::Hash);
    let level = k;
    assert(t@.skip(k as int).len() == t.len() - k);
    if 1 <= level && level <= 6 && (level == t.len() || t[level] == ' ') {
        let rest = subvec(&t, k, t.len());
        Some((level, trim_vec(&rest)))
    } else {
        None
    }
}

fn headings_vec(body: &Vec<char>) -> (r: Vec<(usize, Vec<char>)>)
    ensures
        heading_views(r@) == headings_spec(body@),
{
    let ls = lines_of(body);
    let mut out: Vec<(usize, Vec<char>)> = Vec::new();
    let mut i: usize = 0;
    while i < ls.len()
        invariant
            i <= ls.len(),
            views(ls@) == lines(body@),
            heading_views(out@) == headings_of_lines(views(ls@).take(i as int)),
        decreases ls.len() - i,
    {
        let ghost prev = out@;
        let h = heading_of_line(&ls[i]);
        assert(views(ls@).take(i + 1).drop_last() =~= views(ls@).take(i as int));
        assert(views(ls@).take(i + 1).last() == ls@[i as int]@);
        match h {
            Some(x) => {
                out.push(x);
                assert(heading_views(out@) =~= heading_views(prev) + seq![(x.0 as int, x.1@)]);
            },
            None => {
                assert(heading_views(out@) =~= heading_views(prev) + seq![]);
            },
        }
        i += 1;
    }
    assert(views(ls@).take(i as int) =~= views(ls@));
    out
}

/// Headings of `body`, as (level 1-6, text), in order.
pub fn headings(body: &str) -> (r: Vec<(usize, String)>)
    ensures
        heading_str_views(r@) == headings_spec(body@),
{
    let v = chars_of(body);
    let hs = headings_vec(&v);
    let mut out: Vec<(usize, String)> = Vec::new();
    let mut i: usize = 0;
    while i < hs.len()
        invariant
            i <= hs.len(),
            heading_views(hs@) == headings_spec(body@),
            heading_str_views(out@) =~= heading_views(hs@).take(i as int),
        decreases hs.len() - i,
    {
        let s = string_of(&hs[i].1);
        let ghost prev = out@;
        out.push((hs[i].0, s));
        assert(heading_str_views(out@) =~= heading_str_views(prev).push(heading_views(hs@)[i as int]));
        assert(heading_views(hs@).take(i + 1) =~= heading_views(hs@).take(i as int).push(heading_views(hs@)[i as int]));
        i += 1;
    }
    assert(heading_views(hs@).take(i as int) =~= heading_views(hs@));
    out
}

// ---------------------------------------------------------------------------
// Links and images
// ---------------------------------------------------------------------------

/// A markdown link `[label](url)` or image `![label](url)`.
#[derive(Debug)]
pub struct MdLink {
    pub is_image: bool,
    pub label: String,
    pub url: String,
}

pub open spec fn link_view(l: MdLink) -> (bool, Seq<char>, Seq<char>) {
    (l.is_image, l.label@, l.url@)
}

pub open spec fn link_views(v: Seq<MdLink>) -> Seq<(bool, Seq<char>, Seq<char>)> {
    Seq::new(v.len(), |i: int| link_view(v[i]))
}

/// Index of the `]` closing a `[` whose contents start at `j`, with `depth`
/// brackets still open: nested `[`/`]` pairs are tracked, and a `\` escapes the
/// character after it.
pub open spec fn match_close(c: Seq<char>, j: int, depth: int) -> Option<int>
    decreases c.len() - j,
{
    if j >= c.len() {
        None
    } else if c[j] == '\\' && j + 1 < c.len() {
        match_close(c, j + 2, depth)
    } else if c[j] == '[' {
        match_close(c, j + 1, depth + 1)
    } else if c[j] == ']' {
        if depth - 1 == 0 {
            Some(j)
        } else {
            match_close(c, j + 1, depth - 1)
        }
    } else {
        match_close(c, j + 1, depth)
    }
}

pub proof fn lemma_match_close(c: Seq<char>, j: int, depth: int)
    requires
        0 <= j,
    ensures
        match_close(c, j, depth) matches Some(k) ==> j <= k < c.len() && c[k] == ']',
    decreases c.len() - j,
{
    if j < c.len() {
        if c[j] == '\\' && j + 1 < c.len() {
            lemma_match_close(c, j + 2, depth);
        } else if c[j] == '[' {
            lemma_match_close(c, j + 1, depth + 1);
        } else if c[j] == ']' {
            if depth - 1 != 0 {
                lemma_match_close(c, j + 1, depth - 1);
            }
        } else {
            lemma_match_close(c, j + 1, depth);
        }
    }
}

/// Links and images of `c[i..]`, scanned left to right: a `\` escapes the next
/// character; at `[` (or `![`) the matching `]` must be followed directly by
/// `(`, and the url runs to the next `)`; scanning resumes after that `)`.
pub open spec fn scan_from(c: Seq<char>, i: int) -> Seq<(bool, Seq<char>, Seq<char>)>
    decreases c.len() - i,
{
    if i < 0 || i >= c.len() {
        seq![]
    } else if c[i] == '\\' && i + 1 < c.len() {
        scan_from(c, i + 2)
    } else {
        let img = c[i] == '!' && i + 1 < c.len() && c[i + 1] == '[';
        let bs = if img {
            i + 1
        } else {
            i
        };
        if c[i] == '[' || img {
            match match_close(c, bs + 1, 1) {
                Some(close) => {
                    proof {
                        lemma_match_close(c, bs + 1, 1);
                    }
                    if close + 1 < c.len() && c[close + 1] == '(' && next_index(c, ')', close + 2)
                        < c.len() {
                        let pc = next_index(c, ')', close + 2);
                        proof {
                            lemma_next_index(c, ')', close + 2);
                        }
                        seq![(img, c.subrange(bs + 1, close), c.subrange(close + 2, pc))] + scan_from(
                            c,
                            pc + 1,
                        )
                    } else {
                        scan_from(c, i + 1)
                    }
                },
                None => scan_from(c, i + 1),
            }
        } else {
            scan_from(c, i + 1)
        }
    }
}

pub open spec fn scan_links_spec(text: Seq<char>) -> Seq<(bool, Seq<char>, Seq<char>)> {
    scan_from(text, 0)
}

/// With `d + 1` brackets open, the innermost closes first and the remaining
/// `d` are matched from just after it.
proof fn lemma_match_close_depth(c: Seq<char>, j: int, d: int)
    requires
        0 <= j,
        d >= 1,
    ensures
        match_close(c, j, d + 1) == match match_close(c, j, 1) {
            None => None,
            Some(m) => match_close(c, m + 1, d),
        },
    decreases c.len() - j,
{
    if j < c.len() {
        if c[j] == '\\' && j + 1 < c.len() {
            lemma_match_close_depth(c, j + 2, d);
        } else if c[j] == '[' {
            lemma_match_close_depth(c, j + 1, d + 1);
            lemma_match_close_depth(c, j + 1, 1);
            lemma_match_close(c, j + 1, 1);
            match match_close(c, j + 1, 1) {
                None => {},
                Some(m1) => {
                    lemma_match_close_depth(c, m1 + 1, d);
                },
            }
        } else if c[j] == ']' {
        } else {
            lemma_match_close_depth(c, j + 1, d);
        }
    }
}

pub open spec fn opt_index(o: Option<usize>) -> Option<int> {
    match o {
        Some(k) => Some(k as int),
        None => None,
    }
}

/// For every position `k`, where the bracket whose contents start at `k`
/// closes; computed right to left in one pass.
fn bracket_close_table(c: &Vec<char>) -> (t: Vec<Option<usize>>)
    ensures
        t.len() == c.len(),
        forall|k: int| 0 <= k < c.len() ==> opt_index(#[trigger] t@[k]) == match_close(c@, k, 1),
{
    let n = c.len();
    let mut t: Vec<Option<usize>> = Vec::new();
    while t.len() < n
        invariant
            t.len() <= n,
            n == c.len(),
        decreases n - t.len(),
    {
        t.push(None);
    }
    let mut j: usize = n;
    while j > 0
        invariant
            j <= n,
            n == c.len(),
            t.len() == n,
            forall|k: int| j <= k < n ==> opt_index(#[trigger] t@[k]) == match_close(c@, k, 1),
        decreases j,
    {
        j -= 1;
        let v: Option<usize> = if c[j] == '\\' && j + 1 < n {
            if j + 2 < n {
                assert(opt_index(t@[j + 2]) == match_close(c@, j + 2, 1));
                t[j + 2]
            } else {
                assert(match_close(c@, j + 2, 1) is None);
                None
            }
        } else if c[j] == '[' {
            proof {
                lemma_match_close_depth(c@, j + 1, 1);
                lemma_match_close(c@, j + 1, 1);
            }
            let inner = if j + 1 < n {
                assert(opt_index(t@[j + 1]) == match_close(c@, j + 1, 1));
                t[j + 1]
            } else {
                assert(match_close(c@, j + 1, 1) is None);
                None
            };
            match inner {
                None => None,
                Some(m) => {
                    if m + 1 < n {
                        assert(opt_index(t@[m + 1]) == match_close(c@, m + 1, 1));
                        t[m + 1]
                    } else {
                        assert(match_close(c@, m + 1, 1) is None);
                        None
                    }
                },
            }
        } else if c[j] == ']' {
            Some(j)
        } else if j + 1 < n {
            assert(opt_index(t@[j + 1]) == match_close(c@, j + 1, 1));
            t[j + 1]
        } else {
            assert(match_close(c@, j + 1, 1) is None);
            None
        };
        assert(opt_index(v) == match_close(c@, j as int, 1));
        let ghost before = t@;
        t.set(j, v);
        assert forall|k: int| j <= k < n implies opt_index(#[trigger] t@[k]) == match_close(
            c@,
            k,
            1,
        ) by {
            if k != j {
                assert(t@[k] == before[k]);
            }
        }
    }
    t
}

/// For every position `k`, the first `)` at or after it (or the length).
fn paren_table(c: &Vec<char>) -> (t: Vec<usize>)
    ensures
        t.len() == c.len(),
        forall|k: int| 0 <= k < c.len() ==> #[trigger] t@[k] == next_index(c@, ')', k),
{
    let n = c.len();
    let mut t: Vec<usize> = Vec::new();
    while t.len() < n
        invariant
            t.len() <= n,
            n == c.len(),
        decreases n - t.len(),
    {
        t.push(n);
    }
    let mut j: usize = n;
    while j > 0
        invariant
            j <= n,
            n == c.len(),
            t.len() == n,
            forall|k: int| j <= k < n ==> #[trigger] t@[k] == next_index(c@, ')', k),
        decreases j,
    {
        j -= 1;
        let v = if c[j] == ')' {
            j
        } else if j + 1 < n {
            assert(t@[j + 1] == next_index(c@, ')', j + 1));
            t[j + 1]
        } else {
            assert(next_index(c@, ')', j + 1) == n);
            n
        };
        assert(v == next_index(c@, ')', j as int));
        let ghost before = t@;
        t.set(j, v);
        assert forall|k: int| j <= k < n implies #[trigger] t@[k] == next_index(c@, ')', k) by {
            if k != j {
                assert(t@[k] == before[k]);
            }
        }
    }
    t
}

fn scan_links_vec(c: &Vec<char>) -> (r: Vec<MdLink>)
    ensures
        link_views(r@) == scan_links_spec(c@),
{
    let n = c.len();
    let closes = bracket_close_table(c);
    let parens = paren_table(c);
    let mut out: Vec<MdLink> = Vec::new();
    let mut i: usize = 0;
    while i < n
        invariant
            n == c.len(),
            closes.len() == n,
            parens.len() == n,
            forall|k: int| 0 <= k < n ==> opt_index(#[trigger] closes@[k]) == match_close(c@, k, 1),
            forall|k: int| 0 <= k < n ==> #[trigger] parens@[k] == next_index(c@, ')', k),
            i <= n + 1,
            link_views(out@) + scan_from(c@, i as int) == scan_links_spec(c@),
        decreases n + 1 - i,
    {
        if c[i] == '\\' && i + 1 < n {
            i += 2;
            continue ;
        }
        let is_image = c[i] == '!' && i + 1 < n && c[i + 1] == '[';
        let bracket_start = if is_image {
            i + 1
        } else {
            i
        };
        if c[i] == '[' || is_image {
            let found = if bracket_start + 1 < n {
                closes[bracket_start + 1]
            } else {
                None
            };
            if let Some(close) = found {
                proof {
                    lemma_match_close(c@, bracket_start + 1, 1);
                }
                if close + 1 < n && c[close + 1] == '(' {
                    let paren_close = if close + 2 < n {
                        parens[close + 2]
                    } else {
                        n
                    };
                    proof {
                        lemma_next_index(c@, ')', close + 2);
                    }
                    if paren_close < n {
                        let label = string_of(&subvec(c, bracket_start + 1, close));
                        let url = string_of(&subvec(c, close + 2, paren_close));
                        let ghost prev = out@;
                        let link = MdLink { is_image, label, url };
                        out.push(link);
                        assert(link_views(out@) =~= link_views(prev).push(link_view(link)));
                        assert(link_views(prev) + scan_from(c@, i as int) =~= link_views(out@)
                            + scan_from(c@, paren_close + 1));
                        i = paren_close + 1;
                        continue ;
                    }
                }
            }
        }
        i += 1;
    }
    assert(link_views(out@) + seq![] =~= link_views(out@));
    out
}

/// Markdown images (`![alt](url)`) and links (`[text](url)`) of `text`, in
/// order. Nested `[...]` inside a label is matched by depth, and `\[` / `\]`
/// are escaped characters, not brackets.
pub fn scan_links(text: &str) -> (r: Vec<MdLink>)
    ensures
        link_views(r@) == scan_links_spec(text@),
{
    let c = chars_of(text);
    scan_links_vec(&c)
}


// ---------------------------------------------------------------------------
// Internal vs. external links
// ---------------------------------------------------------------------------

/// Drops ASCII tab / line feed / carriage return and reads `\` as `/`.
pub open spec fn url_chars(s: Seq<char>) -> Seq<char>
    decreases s.len(),
{
    if s.len() == 0 {
        seq![]
    } else {
        let c = s.last();
        url_chars(s.drop_last()) + if c == '\t' || c == '\n' || c == '\r' {
            seq![]
        } else if c == '\\' {
            seq!['/']
        } else {
            seq![c]
        }
    }
}

/// A url as classified: lowercased, trimmed, with tabs/line breaks removed and
/// backslashes read as slashes.
pub open spec fn url_norm(url: Seq<char>) -> Seq<char> {
    url_chars(trim(lowercase(url)))
}

/// What follows `https://`, `http://` or `//` at the start of `n`, if any.
pub open spec fn after_authority_prefix(n: Seq<char>) -> Option<Seq<char>> {
    if starts_with(n, "https://"@) {
        Some(n.skip("https://"@.len() as int))
    } else if starts_with(n, "http://"@) {
        Some(n.skip("http://"@.len() as int))
    } else if starts_with(n, "//"@) {
        Some(n.skip("//"@.len() as int))
    } else {
        None
    }
}

pub open spec fn is_host_end(c: char) -> bool {
    c == '/' || c == '?' || c == '#'
}

/// First index at or after `m` holding `/`, `?` or `#` (or `s.len()`).
pub open spec fn host_end(s: Seq<char>, m: int) -> int
    decreases s.len() - m,
{
    if m >= s.len() {
        s.len() as int
    } else if is_host_end(s[m]) {
        m
    } else {
        host_end(s, m + 1)
    }
}

/// The host of `rest` (what follows the `//`): up to the first `/`, `?` or
/// `#`, without a `:port`.
pub open spec fn host_of(rest: Seq<char>) -> Seq<char> {
    let h = rest.take(host_end(rest, 0));
    h.take(next_index(h, ':', 0))
}

pub open spec fn is_scheme_char(c: char) -> bool {
    let u = c as u32;
    is_ascii_alpha(c) || (0x30 <= u && u <= 0x39) || c == '+' || c == '-' || c == '.'
}

/// First index at or after `m` not holding a scheme character (or `s.len()`).
pub open spec fn scheme_end(s: Seq<char>, m: int) -> int
    decreases s.len() - m,
{
    if m >= s.len() {
        s.len() as int
    } else if !is_scheme_char(s[m]) {
        m
    } else {
        scheme_end(s, m + 1)
    }
}

/// `n` starts with a url scheme: a letter, then letters, digits, `+`, `-` or
/// `.`, then `:` (as in `mailto:`, `ftp:`, `tel:`).
pub open spec fn has_scheme(n: Seq<char>) -> bool {
    n.len() > 0 && is_ascii_alpha(n[0]) && scheme_end(n, 1) < n.len() && n[scheme_end(n, 1)]
        == ':'
}

/// Whether a link target counts as internal to `site_domain`:
/// an absolute (`http://`, `https://`) or protocol-relative (`//`) url whose
/// host is exactly the domain or one of its subdomains; never when the domain
/// is empty; any other scheme (`mailto:`, `ftp:`, ...) is external; a path
/// without a scheme is internal.
pub open spec fn is_internal_spec(url: Seq<char>, site_domain: Seq<char>) -> bool {
    let n = url_norm(url);
    match after_authority_prefix(n) {
        Some(rest) => {
            if site_domain.len() == 0 {
                false
            } else {
                let h = host_of(rest);
                let d = lowercase(site_domain);
                h == d || ends_with(h, seq!['.'] + d)
            }
        },
        None => !has_scheme(n),
    }
}

fn url_chars_vec(s: &Vec<char>) -> (r: Vec<char>)
    ensures
        r@ == url_chars(s@),
{
    let mut r: Vec<char> = Vec::new();
    let mut i: usize = 0;
    while i < s.len()
        invariant
            i <= s.len(),
            r@ == url_chars(s@.take(i as int)),
        decreases s.len() - i,
    {
        let c = s[i];
        assert(s@.take(i + 1).drop_last() =~= s@.take(i as int));
        let ghost prev = r@;
        if c == '\t' || c == '\n' || c == '\r' {
            assert(r@ =~= prev + seq![]);
        } else if c == '\\' {
            r.push('/');
            assert(r@ =~= prev + seq!['/']);
        } else {
            r.push(c);
            assert(r@ =~= prev + seq![c]);
        }
        i += 1;
    }
    assert(s@.take(i as int) =~= s@);
    r
}

fn host_end_vec(s: &Vec<char>) -> (r: usize)
    ensures
        r == host_end(s@, 0),
        r <= s.len(),
{
    let mut m: usize = 0;
    while m < s.len() && !(s[m] == '/' || s[m] == '?' || s[m] == '#')
        invariant
            m <= s.len(),
            host_end(s@, m as int) == host_end(s@, 0),
        decreases s.len() - m,
    {
        m += 1;
    }
    m
}

fn scheme_char(c: char) -> (b: bool)
    ensures
        b == is_scheme_char(c),
{
    let u = c as u32;
    is_ascii_alphabetic(c) || (0x30 <= u && u <= 0x39) || c == '+' || c == '-' || c == '.'
}

fn has_scheme_vec(n: &Vec<char>) -> (r: bool)
    ensures
        r == has_scheme(n@),
{
    if n.len() == 0 || !is_ascii_alphabetic(n[0]) {
        return false;
    }
    let mut m: usize = 1;
    while m < n.len() && scheme_char(n[m])
        invariant
            1 <= m <= n.len(),
            scheme_end(n@, m as int) == scheme_end(n@, 1),
        decreases n.len() - m,
    {
        m += 1;
    }
    m < n.len() && n[m] == ':'
}

/// Whether `url` is an internal link for `site_domain`; see `is_internal_spec`.
pub fn is_internal_url(url: &str, site_domain: &str) -> (r: bool)
    ensures
        r == is_internal_spec(url@, site_domain@),
{
    let low = to_lowercase(url);
    let lv = chars_of(low.as_str());
    let t = trim_vec(&lv);
    let n = url_chars_vec(&t);
    let https = chars_of("https://");
    let http = chars_of("http://");
    let slashes = chars_of("//");
    let skip: usize;
    if vec_starts_with(&n, &https) {
        skip = https.len();
    } else if vec_starts_with(&n, &http) {
        skip = http.len();
    } else if vec_starts_with(&n, &slashes) {
        skip = slashes.len();
    } else {
        return !has_scheme_vec(&n);
    }
    if site_domain.is_empty() {
        return false;
    }
    let rest = subvec(&n, skip, n.len());
    let he = host_end_vec(&rest);
    let h0 = subvec(&rest, 0, he);
    let colon = find_from(&h0, ':', 0);
    let host = subvec(&h0, 0, colon);
    assert(host@ == host_of(n@.skip(skip as int)));
    let dl = to_lowercase(site_domain);
    let d = chars_of(dl.as_str());
    let mut dotted: Vec<char> = Vec::new();
    dotted.push('.');
    let mut k: usize = 0;
    while k < d.len()
        invariant
            k <= d.len(),
            dotted@ == seq!['.'] + d@.take(k as int),
        decreases d.len() - k,
    {
        dotted.push(d[k]);
        assert(d@.take(k + 1) =~= d@.take(k as int).push(d@[k as int]));
        k += 1;
    }
    assert(d@.take(k as int) =~= d@);
    chars_eq(&host, &d) || vec_ends_with(&host, &dotted)
}

// ---------------------------------------------------------------------------
// Keyword matching
// ---------------------------------------------------------------------------

/// Word tokens of `s[pos..]` (with `cur` the word read so far): maximal runs of
/// alphanumeric characters, each lowercased.
pub open spec fn tokens_acc(s: Seq<char>, pos: int, cur: Seq<char>) -> Seq<Seq<char>>
    decreases s.len() - pos,
{
    if pos >= s.len() {
        if cur.len() == 0 {
            seq![]
        } else {
            seq![lowercase(cur)]
        }
    } else if alphanumeric(s[pos]) {
        tokens_acc(s, pos + 1, cur.push(s[pos]))
    } else {
        (if cur.len() == 0 {
            seq![]
        } else {
            seq![lowercase(cur)]
        }) + tokens_acc(s, pos + 1, seq![])
    }
}

pub open spec fn tokens(s: Seq<char>) -> Seq<Seq<char>> {
    tokens_acc(s, 0, seq![])
}

/// The word sequence `k` occurs in `h` at index `i`.
pub open spec fn occurs_at(h: Seq<Seq<char>>, k: Seq<Seq<char>>, i: int) -> bool {
    0 <= i && i + k.len() <= h.len() && h.subrange(i, i + k.len()) == k
}

/// The word sequence `k` occurs contiguously in `h`.
pub open spec fn occurs(h: Seq<Seq<char>>, k: Seq<Seq<char>>) -> bool {
    exists|i: int| occurs_at(h, k, i)
}

/// The keyword appears in `haystack` as a whole-word sequence (case-insensitive).
/// An empty keyword never appears.
pub open spec fn contains_kw_spec(haystack: Seq<char>, keyword: Seq<char>) -> bool {
    tokens(keyword).len() > 0 && occurs(tokens(haystack), tokens(keyword))
}

/// Non-overlapping occurrences of `k` in `h[i..]`, scanning left to right.
pub open spec fn count_from(h: Seq<Seq<char>>, k: Seq<Seq<char>>, i: int) -> nat
    decreases h.len() - i,
{
    if k.len() == 0 || i < 0 || i + k.len() > h.len() {
        0
    } else if occurs_at(h, k, i) {
        1 + count_from(h, k, i + k.len())
    } else {
        count_from(h, k, i + 1)
    }
}

/// Number of non-overlapping whole-word occurrences of the keyword in `haystack`.
pub open spec fn count_kw_spec(haystack: Seq<char>, keyword: Seq<char>) -> nat {
    count_from(tokens(haystack), tokens(keyword), 0)
}

fn lowercase_vec(v: &Vec<char>) -> (r: Vec<char>)
    ensures
        r@ == lowercase(v@),
{
    let s = string_of(v);
    let l = to_lowercase(s.as_str());
    chars_of(l.as_str())
}

fn tokens_vec(s: &Vec<char>) -> (r: Vec<Vec<char>>)
    ensures
        views(r@) == tokens(s@),
{
    let mut out: Vec<Vec<char>> = Vec::new();
    let mut cur: Vec<char> = Vec::new();
    let mut i: usize = 0;
    while i < s.len()
        invariant
            i <= s.len(),
            views(out@) + tokens_acc(s@, i as int, cur@) == tokens(s@),
        decreases s.len() - i,
    {
        if is_alphanumeric(s[i]) {
            cur.push(s[i]);
        } else {
            let ghost prev = views(out@);
            let ghost c = cur@;
            if cur.len() > 0 {
                let w = lowercase_vec(&cur);
                out.push(w);
                assert(views(out@) =~= prev + seq![lowercase(c)]);
            } else {
                assert(views(out@) =~= prev + seq![]);
            }
            cur = Vec::new();
            assert(cur@ =~= seq![]);
        }
        i += 1;
    }
    if cur.len() > 0 {
        let ghost prev = views(out@);
        let ghost c = cur@;
        let w = lowercase_vec(&cur);
        out.push(w);
        assert(views(out@) =~= prev + seq![lowercase(c)]);
    } else {
        assert(views(out@) + seq![] =~= views(out@));
    }
    out
}

fn occurs_at_vec(h: &Vec<Vec<char>>, k: &Vec<Vec<char>>, i: usize) -> (r: bool)
    requires
        i + k.len() <= h.len(),
    ensures
        r == occurs_at(views(h@), views(k@), i as int),
{
    let mut j: usize = 0;
    while j < k.len()
        invariant
            i + k.len() <= h.len(),
            j <= k.len(),
            forall|m: int| 0 <= m < j ==> views(h@)[i + m] == views(k@)[m],
        decreases k.len() - j,
    {
        if !chars_eq(&h[i + j], &k[j]) {
            assert(views(h@).subrange(i as int, i + k.len())[j as int] != views(k@)[j as int]);
            return false;
        }
        j += 1;
    }
    assert(views(h@).subrange(i as int, i + k.len()) =~= views(k@));
    true
}

fn occurs_vec(h: &Vec<Vec<char>>, k: &Vec<Vec<char>>) -> (r: bool)
    ensures
        r == occurs(views(h@), views(k@)),
{
    if k.len() > h.len() {
        assert forall|i: int| !occurs_at(views(h@), views(k@), i) by {}
        return false;
    }
    if k.len() == 0 {
        assert(views(h@).subrange(0, 0) =~= views(k@));
        assert(occurs_at(views(h@), views(k@), 0));
        return true;
    }
    let mut i: usize = 0;
    while i <= h.len() - k.len()
        invariant
            0 < k.len() <= h.len(),
            i <= h.len() - k.len() + 1,
            forall|j: int| 0 <= j < i ==> !occurs_at(views(h@), views(k@), j),
        decreases h.len() - k.len() + 1 - i,
    {
        if occurs_at_vec(h, k, i) {
            return true;
        }
        i += 1;
    }
    assert forall|j: int| !occurs_at(views(h@), views(k@), j) by {
        if 0 <= j && j < i {
        }
    }
    false
}

fn count_vec(h: &Vec<Vec<char>>, k: &Vec<Vec<char>>) -> (r: usize)
    ensures
        r == count_from(views(h@), views(k@), 0),
{
    if k.len() == 0 {
        return 0;
    }
    let mut count: usize = 0;
    let mut i: usize = 0;
    while k.len() <= h.len() - i
        invariant
            k.len() > 0,
            i <= h.len(),
            count <= i,
            count + count_from(views(h@), views(k@), i as int) == count_from(
                views(h@),
                views(k@),
                0,
            ),
        decreases h.len() - i,
    {
        if occurs_at_vec(h, k, i) {
            count += 1;
            i += k.len();
        } else {
            i += 1;
        }
    }
    count
}

pub proof fn lemma_count_positive(h: Seq<Seq<char>>, k: Seq<Seq<char>>, i: int)
    requires
        k.len() > 0,
        0 <= i,
    ensures
        count_from(h, k, i) > 0 <==> exists|j: int| j >= i && occurs_at(h, k, j),
    decreases h.len() - i,
{
    if i + k.len() > h.len() {
        assert forall|j: int| j >= i implies !occurs_at(h, k, j) by {}
    } else if occurs_at(h, k, i) {
    } else {
        lemma_count_positive(h, k, i + 1);
        assert forall|j: int| j >= i && occurs_at(h, k, j) implies j >= i + 1 by {}
    }
}

fn contains_kw_vec(haystack: &Vec<char>, keyword: &Vec<char>) -> (r: bool)
    ensures
        r == contains_kw_spec(haystack@, keyword@),
{
    let k = tokens_vec(keyword);
    if k.len() == 0 {
        return false;
    }
    let h = tokens_vec(haystack);
    occurs_vec(&h, &k)
}

fn count_kw_vec(haystack: &Vec<char>, keyword: &Vec<char>) -> (r: usize)
    ensures
        r == count_kw_spec(haystack@, keyword@),
{
    let k = tokens_vec(keyword);
    let h = tokens_vec(haystack);
    count_vec(&h, &k)
}

/// Whether the keyword appears in `haystack` as a whole-word sequence,
/// case-insensitively; see `contains_kw_spec`.
pub fn contains_kw(haystack: &str, keyword: &str) -> (r: bool)
    ensures
        r == contains_kw_spec(haystack@, keyword@),
{
    contains_kw_vec(&chars_of(haystack), &chars_of(keyword))
}

/// Number of non-overlapping whole-word occurrences of the keyword in
/// `haystack`; see `count_kw_spec`.
pub fn count_kw_occurrences(haystack: &str, keyword: &str) -> (r: usize)
    ensures
        r == count_kw_spec(haystack@, keyword@),
{
    count_kw_vec(&chars_of(haystack), &chars_of(keyword))
}

/// A keyword is counted at least once exactly when it is found.
pub proof fn law_count_positive_iff_contains(haystack: Seq<char>, keyword: Seq<char>)
    ensures
        count_kw_spec(haystack, keyword) > 0 <==> contains_kw_spec(haystack, keyword),
{
    let k = tokens(keyword);
    let h = tokens(haystack);
    if k.len() > 0 {
        lemma_count_positive(h, k, 0);
        if occurs(h, k) {
            let j = choose|j: int| occurs_at(h, k, j);
            assert(j >= 0);
        }
    }
}


// ---------------------------------------------------------------------------
// Intro text
// ---------------------------------------------------------------------------

/// What a body line contributes to the intro: the trimmed line and a space,
/// or nothing for blank and heading lines.
pub open spec fn intro_piece(line: Seq<char>) -> Seq<char> {
    let t = trim(line);
    if t.len() == 0 || t[0] == '#' {
        seq![]
    } else {
        t.push(' ')
    }
}

pub open spec fn intro_pieces(ls: Seq<Seq<char>>) -> Seq<char>
    decreases ls.len(),
{
    if ls.len() == 0 {
        seq![]
    } else {
        intro_pieces(ls.drop_last()) + intro_piece(ls.last())
    }
}

/// The first `limit` characters of the body's prose lines (headings and blank
/// lines left out), each trimmed and followed by a space.
pub open spec fn intro_text_spec(body: Seq<char>, limit: int) -> Seq<char> {
    let all = intro_pieces(lines(body));
    if all.len() <= limit {
        all
    } else {
        all.take(limit)
    }
}

proof fn lemma_intro_prefix(ls: Seq<Seq<char>>, i: int)
    requires
        0 <= i <= ls.len(),
    ensures
        intro_pieces(ls.take(i)).len() <= intro_pieces(ls).len(),
        intro_pieces(ls) .take(intro_pieces(ls.take(i)).len() as int) =~= intro_pieces(ls.take(i)),
    decreases ls.len() - i,
{
    if i < ls.len() {
        lemma_intro_prefix(ls, i + 1);
        assert(ls.take(i + 1).drop_last() =~= ls.take(i));
    } else {
        assert(ls.take(i) =~= ls);
    }
}

fn intro_text_vec(body: &Vec<char>, limit: usize) -> (r: Vec<char>)
    ensures
        r@ == intro_text_spec(body@, limit as int),
{
    let ls = lines_of(body);
    let mut acc: Vec<char> = Vec::new();
    let mut i: usize = 0;
    while i < ls.len()
        invariant_except_break
            i <= ls.len(),
            views(ls@) == lines(body@),
            acc@ == intro_pieces(views(ls@).take(i as int)),
        ensures
            i <= ls.len(),
            acc@ == intro_pieces(views(ls@).take(i as int)),
            i == ls.len() || acc.len() >= limit,
        decreases ls.len() - i,
    {
        let t = trim_vec(&ls[i]);
        assert(views(ls@).take(i + 1).drop_last() =~= views(ls@).take(i as int));
        assert(views(ls@)[i as int] == ls@[i as int]@);
        if t.len() == 0 || t[0] == '#' {
            assert(intro_piece(ls@[i as int]@) =~= seq![]);
            assert(acc@ =~= acc@ + seq![]);
            i += 1;
            continue ;
        }
        let mut k: usize = 0;
        let ghost prev = acc@;
        while k < t.len()
            invariant
                k <= t.len(),
                acc@ == prev + t@.take(k as int),
            decreases t.len() - k,
        {
            acc.push(t[k]);
            assert(t@.take(k + 1) =~= t@.take(k as int).push(t@[k as int]));
            k += 1;
        }
        acc.push(' ');
        assert(acc@ =~= prev + t@.push(' '));
        i += 1;
        if acc.len() >= limit {
            break ;
        }
    }
    proof {
        lemma_intro_prefix(views(ls@), i as int);
        if i == ls.len() {
            assert(views(ls@).take(i as int) =~= views(ls@));
        }
    }
    if acc.len() <= limit {
        acc
    } else {
        subvec(&acc, 0, limit)
    }
}

// ---------------------------------------------------------------------------
// Paragraph length
// ---------------------------------------------------------------------------

/// Paragraphs longer than this many characters are flagged.
pub const PARAGRAPH_CHAR_LIMIT: usize = 600;

pub open spec fn paragraph_message(n: nat) -> Seq<char> {
    "Paragraph is "@ + decimal(n) + " chars, too long (recommended ≤"@ + decimal(
        PARAGRAPH_CHAR_LIMIT as nat,
    ) + " chars) → split it for scan readability"@
}

/// The finding for a finished paragraph, if it is too long.
pub open spec fn flush_paragraph(para: Seq<char>) -> Seq<Seq<char>> {
    if trim(para).len() > 0 && para.len() > PARAGRAPH_CHAR_LIMIT {
        seq![paragraph_message(para.len())]
    } else {
        seq![]
    }
}

/// Findings for lines `ls[i..]`, with `para` the paragraph collected so far: a
/// paragraph is a run of non-blank, non-heading lines, each trimmed and
/// followed by a space.
pub open spec fn paragraph_issues_from(ls: Seq<Seq<char>>, i: int, para: Seq<char>) -> Seq<Seq<char>>
    decreases ls.len() - i,
{
    if i < 0 || i >= ls.len() {
        flush_paragraph(para)
    } else {
        let t = trim(ls[i]);
        if t.len() == 0 || t[0] == '#' {
            flush_paragraph(para) + paragraph_issues_from(ls, i + 1, seq![])
        } else {
            paragraph_issues_from(ls, i + 1, para + t.push(' '))
        }
    }
}

pub open spec fn paragraph_issues_spec(body: Seq<char>) -> Seq<Seq<char>> {
    paragraph_issues_from(lines(body), 0, seq![])
}

pub open spec fn string_views(v: Seq<String>) -> Seq<Seq<char>> {
    Seq::new(v.len(), |i: int| v[i]@)
}

fn paragraph_message_string(n: usize) -> (r: String)
    ensures
        r@ == paragraph_message(n as nat),
{
    let mut s = String::new();
    s.append("Paragraph is ");
    s.append(fmt_usize(n).as_str());
    s.append(" chars, too long (recommended ≤");
    s.append(fmt_usize(PARAGRAPH_CHAR_LIMIT).as_str());
    s.append(" chars) → split it for scan readability");
    s
}

fn flush_paragraph_vec(para: &Vec<char>, issues: &mut Vec<String>)
    ensures
        string_views(final(issues)@) == string_views(old(issues)@) + flush_paragraph(para@),
{
    let t = trim_vec(para);
    if t.len() > 0 && para.len() > PARAGRAPH_CHAR_LIMIT {
        let m = paragraph_message_string(para.len());
        let ghost prev = string_views(issues@);
        issues.push(m);
        assert(string_views(issues@) =~= prev + seq![m@]);
    } else {
        assert(string_views(issues@) =~= string_views(issues@) + seq![]);
    }
}

fn paragraph_length_issues_vec(body: &Vec<char>) -> (r: Vec<String>)
    ensures
        string_views(r@) == paragraph_issues_spec(body@),
{
    let ls = lines_of(body);
    let mut issues: Vec<String> = Vec::new();
    let mut para: Vec<char> = Vec::new();
    let mut i: usize = 0;
    while i < ls.len()
        invariant
            i <= ls.len(),
            views(ls@) == lines(body@),
            string_views(issues@) + paragraph_issues_from(views(ls@), i as int, para@)
                == paragraph_issues_spec(body@),
        decreases ls.len() - i,
    {
        let t = trim_vec(&ls[i]);
        assert(views(ls@)[i as int] == ls@[i as int]@);
        if t.len() == 0 || t[0] == '#' {
            let ghost prev = string_views(issues@);
            flush_paragraph_vec(&para, &mut issues);
            assert(prev + (flush_paragraph(para@) + paragraph_issues_from(views(ls@), i + 1, seq![]))
                =~= string_views(issues@) + paragraph_issues_from(views(ls@), i + 1, seq![]));
            para = Vec::new();
            assert(para@ =~= seq![]);
        } else {
            let ghost p0 = para@;
            let mut k: usize = 0;
            while k < t.len()
                invariant
                    k <= t.len(),
                    para@ == p0 + t@.take(k as int),
                decreases t.len() - k,
            {
                para.push(t[k]);
                assert(t@.take(k + 1) =~= t@.take(k as int).push(t@[k as int]));
                k += 1;
            }
            para.push(' ');
            assert(para@ =~= p0 + t@.push(' '));
        }
        i += 1;
    }
    flush_paragraph_vec(&para, &mut issues);
    issues
}

/// Findings for paragraphs longer than `PARAGRAPH_CHAR_LIMIT` characters.
pub fn paragraph_length_issues(body: &str) -> (r: Vec<String>)
    ensures
        string_views(r@) == paragraph_issues_spec(body@),
{
    paragraph_length_issues_vec(&chars_of(body))
}


// ---------------------------------------------------------------------------
// Prose extraction (for readability)
// ---------------------------------------------------------------------------

/// First index at or after `i` where `p` occurs in `s`.
pub open spec fn find_sub(s: Seq<char>, p: Seq<char>, i: int) -> Option<int>
    decreases s.len() + 1 - i,
{
    if i < 0 || i + p.len() > s.len() {
        None
    } else if s.subrange(i, i + p.len()) == p {
        Some(i)
    } else {
        find_sub(s, p, i + 1)
    }
}

/// `str::replacen(p, r, 1)`: the first occurrence of `p` replaced by `r`.
pub open spec fn replace_first(s: Seq<char>, p: Seq<char>, r: Seq<char>) -> Seq<char> {
    match find_sub(s, p, 0) {
        Some(k) => s.take(k) + r + s.skip(k + p.len()),
        None => s,
    }
}

proof fn lemma_find_sub(s: Seq<char>, p: Seq<char>, i: int)
    requires
        0 <= i,
    ensures
        find_sub(s, p, i) matches Some(k) ==> i <= k && k + p.len() <= s.len(),
    decreases s.len() + 1 - i,
{
    if i + p.len() <= s.len() && s.subrange(i, i + p.len()) != p {
        lemma_find_sub(s, p, i + 1);
    }
}

fn replace_first_vec(s: &Vec<char>, p: &Vec<char>, r: &Vec<char>) -> (out: Vec<char>)
    ensures
        out@ == replace_first(s@, p@, r@),
{
    let mut i: usize = 0;
    let mut found = false;
    if p.len() == 0 {
        assert(s@.subrange(0, 0) =~= p@);
        let mut out = subvec(r, 0, r.len());
        push_all(&mut out, s);
        assert(s@.take(0) + r@ + s@.skip(0) =~= r@ + s@);
        return out;
    }
    while p.len() <= s.len() && i <= s.len() - p.len()
        invariant_except_break
            i <= s.len() + 1,
            p.len() > 0,
            find_sub(s@, p@, i as int) == find_sub(s@, p@, 0),
            !found,
        ensures
            found ==> find_sub(s@, p@, 0) == Some(i as int) && i + p.len() <= s.len(),
            !found ==> find_sub(s@, p@, 0) is None,
        decreases s.len() + 1 - i,
    {
        if starts_with_at(s, i, p) {
            assert(s@.skip(i as int).take(p.len() as int) =~= s@.subrange(i as int, i + p.len()));
            found = true;
            break ;
        }
        assert(s@.skip(i as int).take(p.len() as int) =~= s@.subrange(i as int, i + p.len()));
        i += 1;
    }
    if !found {
        return subvec(s, 0, s.len());
    }
    let mut out = subvec(s, 0, i);
    let mut k: usize = 0;
    let ghost o0 = out@;
    while k < r.len()
        invariant
            k <= r.len(),
            out@ == o0 + r@.take(k as int),
        decreases r.len() - k,
    {
        out.push(r[k]);
        assert(r@.take(k + 1) =~= r@.take(k as int).push(r@[k as int]));
        k += 1;
    }
    let tail = subvec(s, i + p.len(), s.len());
    let ghost o1 = out@;
    let mut m: usize = 0;
    while m < tail.len()
        invariant
            m <= tail.len(),
            out@ == o1 + tail@.take(m as int),
        decreases tail.len() - m,
    {
        out.push(tail[m]);
        assert(tail@.take(m + 1) =~= tail@.take(m as int).push(tail@[m as int]));
        m += 1;
    }
    assert(r@.take(k as int) =~= r@);
    assert(tail@.take(m as int) =~= tail@);
    assert(out@ =~= s@.take(i as int) + r@ + s@.skip(i + p.len()));
    out
}

/// The markdown source of a scanned link or image.
pub open spec fn link_source(l: (bool, Seq<char>, Seq<char>)) -> Seq<char> {
    (if l.0 {
        "!["@
    } else {
        "["@
    }) + l.1 + "]("@ + l.2 + ")"@
}

/// `t` with each scanned link replaced (first occurrence, in order) by its
/// label and each image removed.
pub open spec fn apply_links(t: Seq<char>, links: Seq<(bool, Seq<char>, Seq<char>)>) -> Seq<char>
    decreases links.len(),
{
    if links.len() == 0 {
        t
    } else {
        let l = links.last();
        replace_first(
            apply_links(t, links.drop_last()),
            link_source(l),
            if l.0 {
                seq![]
            } else {
                l.1
            },
        )
    }
}

/// The prose of one line outside code fences: heading marks removed, trimmed,
/// links reduced to their labels, images dropped; then a line break.
pub open spec fn prose_line(t: Seq<char>) -> Seq<char> {
    let t2 = trim(trim_start_by(t, CharClass::Hash));
    apply_links(t2, scan_links_spec(t2)).push('\n')
}

/// Prose of lines `ls[i..]`; a line starting with three backticks (after
/// leading whitespace) opens or closes a code fence and fenced lines are dropped.
pub open spec fn prose_from(ls: Seq<Seq<char>>, i: int, in_fence: bool) -> Seq<char>
    decreases ls.len() - i,
{
    if i < 0 || i >= ls.len() {
        seq![]
    } else {
        let t = trim_start(ls[i]);
        if starts_with(t, "```"@) {
            prose_from(ls, i + 1, !in_fence)
        } else if in_fence {
            prose_from(ls, i + 1, in_fence)
        } else {
            prose_line(t) + prose_from(ls, i + 1, in_fence)
        }
    }
}

pub open spec fn is_markup(c: char) -> bool {
    c == '*' || c == '_' || c == '~' || c == '>' || c == '`'
}

pub open spec fn drop_markup(s: Seq<char>) -> Seq<char>
    decreases s.len(),
{
    if s.len() == 0 {
        seq![]
    } else {
        drop_markup(s.drop_last()) + if is_markup(s.last()) {
            seq![]
        } else {
            seq![s.last()]
        }
    }
}

/// The body reduced to plain prose: see `prose_from`, then emphasis, quote and
/// backtick characters (`* _ ~ > `` ` ``) removed.
pub open spec fn prose_spec(body: Seq<char>) -> Seq<char> {
    drop_markup(prose_from(lines(body), 0, false))
}

pub fn push_all(out: &mut Vec<char>, v: &Vec<char>)
    ensures
        final(out)@ == old(out)@ + v@,
{
    let ghost o0 = out@;
    let mut k: usize = 0;
    while k < v.len()
        invariant
            k <= v.len(),
            out@ == o0 + v@.take(k as int),
        decreases v.len() - k,
    {
        out.push(v[k]);
        assert(v@.take(k + 1) =~= v@.take(k as int).push(v@[k as int]));
        k += 1;
    }
    assert(v@.take(k as int) =~= v@);
}

fn link_source_vec(l: &MdLink) -> (r: Vec<char>)
    ensures
        r@ == link_source(link_view(*l)),
{
    let mut r = if l.is_image {
        chars_of("![")
    } else {
        chars_of("[")
    };
    push_all(&mut r, &chars_of(l.label.as_str()));
    push_all(&mut r, &chars_of("]("));
    push_all(&mut r, &chars_of(l.url.as_str()));
    push_all(&mut r, &chars_of(")"));
    r
}

fn prose_line_vec(t: &Vec<char>) -> (r: Vec<char>)
    ensures
        r@ == prose_line(t@),
{
    let h = trim_start_vec_by(t, CharClass::Hash);
    let t2 = trim_vec(&h);
    let links = scan_links_vec(&t2);
    let mut rest = subvec(&t2, 0, t2.len());
    assert(rest@ =~= t2@);
    let mut j: usize = 0;
    while j < links.len()
        invariant
            j <= links.len(),
            link_views(links@) == scan_links_spec(t2@),
            rest@ == apply_links(t2@, link_views(links@).take(j as int)),
        decreases links.len() - j,
    {
        let l = &links[j];
        let full = link_source_vec(l);
        let repl = if l.is_image {
            Vec::new()
        } else {
            chars_of(l.label.as_str())
        };
        assert(link_views(links@).take(j + 1).drop_last() =~= link_views(links@).take(j as int));
        assert(link_views(links@).take(j + 1).last() == link_view(links@[j as int]));
        assert(repl@ =~= (if l.is_image {
            seq![]
        } else {
            l.label@
        }));
        rest = replace_first_vec(&rest, &full, &repl);
        j += 1;
    }
    assert(link_views(links@).take(j as int) =~= link_views(links@));
    rest.push('\n');
    rest
}

fn drop_markup_vec(s: &Vec<char>) -> (r: Vec<char>)
    ensures
        r@ == drop_markup(s@),
{
    let mut r: Vec<char> = Vec::new();
    let mut i: usize = 0;
    while i < s.len()
        invariant
            i <= s.len(),
            r@ == drop_markup(s@.take(i as int)),
        decreases s.len() - i,
    {
        let c = s[i];
        assert(s@.take(i + 1).drop_last() =~= s@.take(i as int));
        let ghost prev = r@;
        if c == '*' || c == '_' || c == '~' || c == '>' || c == '`' {
            assert(r@ =~= prev + seq![]);
        } else {
            r.push(c);
            assert(r@ =~= prev + seq![c]);
        }
        i += 1;
    }
    assert(s@.take(i as int) =~= s@);
    r
}

fn strip_markdown_to_prose_vec(body: &Vec<char>) -> (r: Vec<char>)
    ensures
        r@ == prose_spec(body@),
{
    let ls = lines_of(body);
    let fence = chars_of("```");
    let mut out: Vec<char> = Vec::new();
    let mut in_fence = false;
    let mut i: usize = 0;
    while i < ls.len()
        invariant
            i <= ls.len(),
            views(ls@) == lines(body@),
            fence@ == "```"@,
            out@ + prose_from(views(ls@), i as int, in_fence) == prose_from(views(ls@), 0, false),
        decreases ls.len() - i,
    {
        let t = trim_start_vec(&ls[i]);
        assert(views(ls@)[i as int] == ls@[i as int]@);
        if vec_starts_with(&t, &fence) {
            in_fence = !in_fence;
        } else if in_fence {
        } else {
            let ghost prev = out@;
            let pl = prose_line_vec(&t);
            push_all(&mut out, &pl);
            assert(prev + (pl@ + prose_from(views(ls@), i + 1, in_fence)) =~= out@ + prose_from(
                views(ls@),
                i + 1,
                in_fence,
            ));
        }
        i += 1;
    }
    assert(out@ + seq![] =~= out@);
    drop_markup_vec(&out)
}

/// The plain prose of a markdown body; see `prose_spec`.
pub fn strip_markdown_to_prose(body: &str) -> (r: String)
    ensures
        r@ == prose_spec(body@),
{
    string_of(&strip_markdown_to_prose_vec(&chars_of(body)))
}


// ---------------------------------------------------------------------------
// Readability counts
// ---------------------------------------------------------------------------

/// Words of `s[pos..]` separated by whitespace (`str::split_whitespace`), with
/// `cur` the word read so far.
pub open spec fn words_acc(s: Seq<char>, pos: int, cur: Seq<char>) -> Seq<Seq<char>>
    decreases s.len() - pos,
{
    if pos >= s.len() {
        if cur.len() == 0 {
            seq![]
        } else {
            seq![cur]
        }
    } else if is_ws(s[pos]) {
        (if cur.len() == 0 {
            seq![]
        } else {
            seq![cur]
        }) + words_acc(s, pos + 1, seq![])
    } else {
        words_acc(s, pos + 1, cur.push(s[pos]))
    }
}

pub open spec fn words(s: Seq<char>) -> Seq<Seq<char>> {
    words_acc(s, 0, seq![])
}

fn words_vec(s: &Vec<char>) -> (r: Vec<Vec<char>>)
    ensures
        views(r@) == words(s@),
{
    let mut out: Vec<Vec<char>> = Vec::new();
    let mut cur: Vec<char> = Vec::new();
    let mut i: usize = 0;
    while i < s.len()
        invariant
            i <= s.len(),
            views(out@) + words_acc(s@, i as int, cur@) == words(s@),
        decreases s.len() - i,
    {
        if is_whitespace(s[i]) {
            let ghost prev = views(out@);
            let ghost c = cur@;
            if cur.len() > 0 {
                out.push(cur);
                assert(views(out@) =~= prev + seq![c]);
            } else {
                assert(views(out@) =~= prev + seq![]);
            }
            cur = Vec::new();
            assert(cur@ =~= seq![]);
        } else {
            cur.push(s[i]);
        }
        i += 1;
    }
    if cur.len() > 0 {
        let ghost prev = views(out@);
        let ghost c = cur@;
        out.push(cur);
        assert(views(out@) =~= prev + seq![c]);
    } else {
        assert(views(out@) + seq![] =~= views(out@));
    }
    out
}

/// Character kinds that readability counts.
#[derive(Clone, Copy, PartialEq, Eq, Debug)]
pub enum CharKind {
    NonWhitespace,
    AsciiLetter,
    Hangul,
}

pub open spec fn is_kind(c: char, k: CharKind) -> bool {
    match k {
        CharKind::NonWhitespace => !is_ws(c),
        CharKind::AsciiLetter => is_ascii_alpha(c),
        CharKind::Hangul => is_hangul(c),
    }
}

fn char_is_kind(c: char, k: CharKind) -> (b: bool)
    ensures
        b == is_kind(c, k),
{
    match k {
        CharKind::NonWhitespace => !is_whitespace(c),
        CharKind::AsciiLetter => is_ascii_alphabetic(c),
        CharKind::Hangul => is_hangul_syllable(c),
    }
}

/// Number of characters of kind `k` in `s`.
pub open spec fn count_kind(s: Seq<char>, k: CharKind) -> nat
    decreases s.len(),
{
    if s.len() == 0 {
        0
    } else {
        count_kind(s.drop_last(), k) + if is_kind(s.last(), k) {
            1nat
        } else {
            0nat
        }
    }
}

proof fn lemma_count_kind_le(s: Seq<char>, k: CharKind)
    ensures
        count_kind(s, k) <= s.len(),
        count_kind(s, CharKind::AsciiLetter) <= count_kind(s, CharKind::NonWhitespace),
    decreases s.len(),
{
    if s.len() > 0 {
        lemma_count_kind_le(s.drop_last(), k);
    }
}

fn count_kind_vec(s: &Vec<char>, k: CharKind) -> (r: usize)
    ensures
        r == count_kind(s@, k),
{
    let mut n: usize = 0;
    let mut i: usize = 0;
    while i < s.len()
        invariant
            i <= s.len(),
            n == count_kind(s@.take(i as int), k),
            n <= i,
        decreases s.len() - i,
    {
        assert(s@.take(i + 1).drop_last() =~= s@.take(i as int));
        if char_is_kind(s[i], k) {
            n += 1;
        }
        i += 1;
    }
    assert(s@.take(i as int) =~= s@);
    n
}

/// The ASCII letters of `s`, in order.
pub open spec fn ascii_letters(s: Seq<char>) -> Seq<char>
    decreases s.len(),
{
    if s.len() == 0 {
        seq![]
    } else {
        ascii_letters(s.drop_last()) + if is_ascii_alpha(s.last()) {
            seq![s.last()]
        } else {
            seq![]
        }
    }
}

pub open spec fn is_vowel(c: char) -> bool {
    c == 'a' || c == 'e' || c == 'i' || c == 'o' || c == 'u' || c == 'y'
}

/// A silent ending is dropped: `es`, `ed` (word longer than 4) or `e` (longer
/// than 3), when the letter before it is a consonant.
pub open spec fn drop_silent_ending(w: Seq<char>) -> Seq<char> {
    if ends_with(w, seq!['e', 's']) && w.len() > 4 && !is_vowel(w[w.len() - 3]) {
        w.take(w.len() - 2)
    } else if ends_with(w, seq!['e', 'd']) && w.len() > 4 && !is_vowel(w[w.len() - 3]) {
        w.take(w.len() - 2)
    } else if ends_with(w, seq!['e']) && w.len() > 3 && !is_vowel(w[w.len() - 2]) {
        w.take(w.len() - 1)
    } else {
        w
    }
}

/// Number of vowel groups (maximal runs of vowels) in `s[i..]`, where `prev`
/// says whether `s[i - 1]` was a vowel.
pub open spec fn vowel_groups(s: Seq<char>, i: int, prev: bool) -> nat
    decreases s.len() - i,
{
    if i < 0 || i >= s.len() {
        0
    } else {
        (if is_vowel(s[i]) && !prev {
            1nat
        } else {
            0nat
        }) + vowel_groups(s, i + 1, is_vowel(s[i]))
    }
}

/// Estimated English syllables of a word: its ASCII letters after lowercasing;
/// none for no letters, one for up to three letters, otherwise the vowel groups
/// after dropping a silent ending, at least one.
pub open spec fn syllables_spec(word: Seq<char>) -> nat {
    let w = ascii_letters(lowercase(word));
    if w.len() == 0 {
        0
    } else if w.len() <= 3 {
        1
    } else {
        let g = vowel_groups(drop_silent_ending(w), 0, false);
        if g == 0 {
            1
        } else {
            g
        }
    }
}

proof fn lemma_vowel_groups_le(s: Seq<char>, i: int, prev: bool)
    requires
        0 <= i,
    ensures
        vowel_groups(s, i, prev) <= if i <= s.len() {
            s.len() - i
        } else {
            0
        },
    decreases s.len() - i,
{
    if i < s.len() {
        lemma_vowel_groups_le(s, i + 1, is_vowel(s[i]));
    }
}

fn ascii_letters_vec(s: &Vec<char>) -> (r: Vec<char>)
    ensures
        r@ == ascii_letters(s@),
{
    let mut r: Vec<char> = Vec::new();
    let mut i: usize = 0;
    while i < s.len()
        invariant
            i <= s.len(),
            r@ == ascii_letters(s@.take(i as int)),
        decreases s.len() - i,
    {
        assert(s@.take(i + 1).drop_last() =~= s@.take(i as int));
        let ghost prev = r@;
        if is_ascii_alphabetic(s[i]) {
            r.push(s[i]);
            assert(r@ =~= prev + seq![s@[i as int]]);
        } else {
            assert(r@ =~= prev + seq![]);
        }
        i += 1;
    }
    assert(s@.take(i as int) =~= s@);
    r
}

fn vowel(c: char) -> (b: bool)
    ensures
        b == is_vowel(c),
{
    c == 'a' || c == 'e' || c == 'i' || c == 'o' || c == 'u' || c == 'y'
}

fn drop_silent_ending_vec(w: Vec<char>) -> (r: Vec<char>)
    ensures
        r@ == drop_silent_ending(w@),
{
    let n = w.len();
    let es = n >= 2 && w[n - 2] == 'e' && w[n - 1] == 's';
    let ed = n >= 2 && w[n - 2] == 'e' && w[n - 1] == 'd';
    let e = n >= 1 && w[n - 1] == 'e';
    assert(es == ends_with(w@, seq!['e', 's'])) by {
        if n >= 2 {
            assert(w@.skip(n - 2) =~= seq![w@[n - 2], w@[n - 1]]);
        }
    }
    assert(ed == ends_with(w@, seq!['e', 'd'])) by {
        if n >= 2 {
            assert(w@.skip(n - 2) =~= seq![w@[n - 2], w@[n - 1]]);
        }
    }
    assert(e == ends_with(w@, seq!['e'])) by {
        if n >= 1 {
            assert(w@.skip(n - 1) =~= seq![w@[n - 1]]);
            if w@[n - 1] == 'e' {
                assert(seq![w@[n - 1]] =~= seq!['e']);
            } else {
                assert(seq![w@[n - 1]][0] != seq!['e'][0]);
            }
        }
    }
    if es && n > 4 && !vowel(w[n - 3]) {
        subvec(&w, 0, n - 2)
    } else if ed && n > 4 && !vowel(w[n - 3]) {
        subvec(&w, 0, n - 2)
    } else if e && n > 3 && !vowel(w[n - 2]) {
        subvec(&w, 0, n - 1)
    } else {
        w
    }
}

fn vowel_groups_vec(s: &Vec<char>) -> (r: usize)
    ensures
        r == vowel_groups(s@, 0, false),
{
    let mut n: usize = 0;
    let mut prev = false;
    let mut i: usize = 0;
    proof {
        lemma_vowel_groups_le(s@, 0, false);
    }
    while i < s.len()
        invariant
            i <= s.len(),
            n + vowel_groups(s@, i as int, prev) == vowel_groups(s@, 0, false),
            vowel_groups(s@, 0, false) <= s.len(),
        decreases s.len() - i,
    {
        let v = vowel(s[i]);
        if v && !prev {
            n += 1;
        }
        prev = v;
        i += 1;
    }
    n
}

/// Estimated English syllables of `word`; see `syllables_spec`.
pub fn count_syllables(word: &str) -> (r: usize)
    ensures
        r == syllables_spec(word@),
{
    let low = to_lowercase(word);
    let w = ascii_letters_vec(&chars_of(low.as_str()));
    if w.len() == 0 {
        return 0;
    }
    if w.len() <= 3 {
        return 1;
    }
    let cleaned = drop_silent_ending_vec(w);
    let g = vowel_groups_vec(&cleaned);
    if g == 0 {
        1
    } else {
        g
    }
}

pub open spec fn is_sentence_end(c: char) -> bool {
    c == '.' || c == '!' || c == '?'
}

/// Sentence ends in `s[i..]`: a `.`, `!` or `?` followed by whitespace or by
/// the end of the text.
pub open spec fn sentences_from(s: Seq<char>, i: int) -> nat
    decreases s.len() - i,
{
    if i < 0 || i >= s.len() {
        0
    } else {
        (if is_sentence_end(s[i]) && (i + 1 >= s.len() || is_ws(s[i + 1])) {
            1nat
        } else {
            0nat
        }) + sentences_from(s, i + 1)
    }
}

pub open spec fn sentence_count(s: Seq<char>) -> nat {
    sentences_from(s, 0)
}

proof fn lemma_sentences_le(s: Seq<char>, i: int)
    requires
        0 <= i,
    ensures
        sentences_from(s, i) <= if i <= s.len() {
            s.len() - i
        } else {
            0
        },
    decreases s.len() - i,
{
    if i < s.len() {
        lemma_sentences_le(s, i + 1);
    }
}

fn count_sentences_vec(s: &Vec<char>) -> (r: usize)
    ensures
        r == sentence_count(s@),
{
    let n = s.len();
    let mut count: usize = 0;
    let mut i: usize = 0;
    proof {
        lemma_sentences_le(s@, 0);
    }
    while i < n
        invariant
            n == s.len(),
            i <= n,
            count + sentences_from(s@, i as int) == sentence_count(s@),
            sentence_count(s@) <= n,
        decreases n - i,
    {
        if (s[i] == '.' || s[i] == '!' || s[i] == '?') && (i + 1 >= n || is_whitespace(s[i + 1])) {
            count += 1;
        }
        i += 1;
    }
    count
}

/// Number of sentence ends in `text`: a `.`, `!` or `?` followed by whitespace
/// or by the end of the text; see `sentence_count`.
pub fn count_korean_sentences(text: &str) -> (r: usize)
    ensures
        r == sentence_count(text@),
{
    count_sentences_vec(&chars_of(text))
}

/// Words that contain an ASCII letter.
pub open spec fn lettered_words(ws: Seq<Seq<char>>) -> Seq<Seq<char>>
    decreases ws.len(),
{
    if ws.len() == 0 {
        seq![]
    } else {
        lettered_words(ws.drop_last()) + if count_kind(ws.last(), CharKind::AsciiLetter) > 0 {
            seq![ws.last()]
        } else {
            seq![]
        }
    }
}

/// Total estimated syllables of `ws`.
pub open spec fn syllable_total(ws: Seq<Seq<char>>) -> nat
    decreases ws.len(),
{
    if ws.len() == 0 {
        0
    } else {
        syllable_total(ws.drop_last()) + syllables_spec(ws.last())
    }
}

/// The counts behind the Flesch Reading Ease and Flesch-Kincaid Grade scores.
#[derive(Clone, Copy, Debug, PartialEq, Eq)]
pub struct FleschCounts {
    /// Words that contain an ASCII letter.
    pub words: usize,
    /// Estimated syllables of those words (saturating at `usize::MAX`).
    pub syllables: usize,
    /// Sentences, at least one.
    pub sentences: usize,
}

pub open spec fn sat(n: nat) -> int {
    if n > usize::MAX {
        usize::MAX as int
    } else {
        n as int
    }
}

/// Flesch counts of a body: absent when the prose has no non-whitespace
/// characters, when fewer than half of them are ASCII letters, or when no word
/// contains an ASCII letter.
pub open spec fn flesch_counts_spec(body: Seq<char>) -> Option<(int, int, int)> {
    let p = prose_spec(body);
    let total = count_kind(p, CharKind::NonWhitespace);
    let latin = count_kind(p, CharKind::AsciiLetter);
    let ws = lettered_words(words(p));
    if total == 0 || 2 * latin < total || ws.len() == 0 {
        None
    } else {
        Some(
            (
                ws.len() as int,
                sat(syllable_total(ws)),
                if sentence_count(p) == 0 {
                    1
                } else {
                    sentence_count(p) as int
                },
            ),
        )
    }
}

/// The counts behind the Korean readability heuristic.
#[derive(Clone, Copy, Debug, PartialEq, Eq)]
pub struct KoreanCounts {
    /// Whitespace-separated words.
    pub words: usize,
    /// Sentences, at least one.
    pub sentences: usize,
    /// Hangul syllables.
    pub syllables: usize,
    /// Technical terms among the words.
    pub technical: usize,
}

pub open spec fn is_tech_suffix(c: char) -> bool {
    c == '화' || c == '율' || c == '성' || c == '도' || c == '적' || c == '론' || c == '법' || c
        == '형' || c == '식' || c == '계' || c == '기' || c == '학'
}

/// A technical term: after trimming characters that are neither alphanumeric
/// nor Hangul from both ends, either an all-ASCII-letter word of 3 or more
/// letters or a word ending in a technical suffix (화 율 성 도 적 론 법 형 식 계 기 학).
pub open spec fn is_technical_spec(word: Seq<char>) -> bool {
    let t = trim_end_by(trim_start_by(word, CharClass::NonWord), CharClass::NonWord);
    if t.len() == 0 {
        false
    } else {
        let a = count_kind(t, CharKind::AsciiLetter);
        (a >= 3 && a == t.len()) || is_tech_suffix(t.last())
    }
}

fn tech_suffix(c: char) -> (b: bool)
    ensures
        b == is_tech_suffix(c),
{
    c == '화' || c == '율' || c == '성' || c == '도' || c == '적' || c == '론' || c == '법' || c
        == '형' || c == '식' || c == '계' || c == '기' || c == '학'
}

fn is_technical_word_vec(word: &Vec<char>) -> (r: bool)
    ensures
        r == is_technical_spec(word@),
{
    let a = trim_start_vec_by(word, CharClass::NonWord);
    let t = trim_end_vec_by(&a, CharClass::NonWord);
    if t.len() == 0 {
        return false;
    }
    let letters = count_kind_vec(&t, CharKind::AsciiLetter);
    if letters >= 3 && letters == t.len() {
        return true;
    }
    tech_suffix(t[t.len() - 1])
}

/// Whether `word` is a technical term; see `is_technical_spec`.
pub fn is_technical_word(word: &str) -> (r: bool)
    ensures
        r == is_technical_spec(word@),
{
    is_technical_word_vec(&chars_of(word))
}

pub open spec fn technical_count(ws: Seq<Seq<char>>) -> nat
    decreases ws.len(),
{
    if ws.len() == 0 {
        0
    } else {
        technical_count(ws.drop_last()) + if is_technical_spec(ws.last()) {
            1nat
        } else {
            0nat
        }
    }
}

/// Korean readability counts of a body: absent when the prose has no
/// non-whitespace characters or when half or more of them are ASCII letters
/// (then the Flesch counts apply instead).
pub open spec fn korean_counts_spec(body: Seq<char>) -> Option<(int, int, int, int)> {
    let p = prose_spec(body);
    let total = count_kind(p, CharKind::NonWhitespace);
    let latin = count_kind(p, CharKind::AsciiLetter);
    let ws = words(p);
    if total == 0 || 2 * latin >= total || ws.len() == 0 {
        None
    } else {
        Some(
            (
                ws.len() as int,
                if sentence_count(p) == 0 {
                    1
                } else {
                    sentence_count(p) as int
                },
                count_kind(p, CharKind::Hangul) as int,
                technical_count(ws) as int,
            ),
        )
    }
}

pub open spec fn flesch_view(c: Option<FleschCounts>) -> Option<(int, int, int)> {
    match c {
        Some(x) => Some((x.words as int, x.syllables as int, x.sentences as int)),
        None => None,
    }
}

pub open spec fn korean_view(c: Option<KoreanCounts>) -> Option<(int, int, int, int)> {
    match c {
        Some(x) => Some(
            (x.words as int, x.sentences as int, x.syllables as int, x.technical as int),
        ),
        None => None,
    }
}

fn flesch_counts_of_prose(p: &Vec<char>) -> (r: Option<FleschCounts>)
    ensures
        flesch_view(r) == ({
            let total = count_kind(p@, CharKind::NonWhitespace);
            let latin = count_kind(p@, CharKind::AsciiLetter);
            let ws = lettered_words(words(p@));
            if total == 0 || 2 * latin < total || ws.len() == 0 {
                None
            } else {
                Some(
                    (
                        ws.len() as int,
                        sat(syllable_total(ws)),
                        if sentence_count(p@) == 0 {
                            1
                        } else {
                            sentence_count(p@) as int
                        },
                    ),
                )
            }
        }),
{
    let total = count_kind_vec(p, CharKind::NonWhitespace);
    if total == 0 {
        return None;
    }
    let latin = count_kind_vec(p, CharKind::AsciiLetter);
    proof {
        lemma_count_kind_le(p@, CharKind::AsciiLetter);
    }
    if latin < total - latin {
        return None;
    }
    let all = words_vec(p);
    let mut lettered: Vec<Vec<char>> = Vec::new();
    let mut syllables: usize = 0;
    let mut i: usize = 0;
    while i < all.len()
        invariant
            i <= all.len(),
            views(all@) == words(p@),
            views(lettered@) == lettered_words(views(all@).take(i as int)),
            syllables == sat(syllable_total(lettered_words(views(all@).take(i as int)))),
        decreases all.len() - i,
    {
        assert(views(all@).take(i + 1).drop_last() =~= views(all@).take(i as int));
        assert(views(all@).take(i + 1).last() == all@[i as int]@);
        let w = &all[i];
        let ghost prev = views(lettered@);
        if count_kind_vec(w, CharKind::AsciiLetter) > 0 {
            let ws = string_of(w);
            let n = count_syllables(ws.as_str());
            syllables = syllables.saturating_add(n);
            let copy = subvec(w, 0, w.len());
            assert(copy@ =~= w@);
            lettered.push(copy);
            assert(views(lettered@) =~= prev + seq![w@]);
            assert((prev + seq![w@]).drop_last() =~= prev);
        } else {
            assert(views(lettered@) =~= prev + seq![]);
        }
        i += 1;
    }
    assert(views(all@).take(i as int) =~= views(all@));
    if lettered.len() == 0 {
        return None;
    }
    let sc = count_sentences_vec(p);
    Some(
        FleschCounts {
            words: lettered.len(),
            syllables,
            sentences: if sc == 0 {
                1
            } else {
                sc
            },
        },
    )
}

fn korean_counts_of_prose(p: &Vec<char>) -> (r: Option<KoreanCounts>)
    ensures
        korean_view(r) == ({
            let total = count_kind(p@, CharKind::NonWhitespace);
            let latin = count_kind(p@, CharKind::AsciiLetter);
            let ws = words(p@);
            if total == 0 || 2 * latin >= total || ws.len() == 0 {
                None
            } else {
                Some(
                    (
                        ws.len() as int,
                        if sentence_count(p@) == 0 {
                            1
                        } else {
                            sentence_count(p@) as int
                        },
                        count_kind(p@, CharKind::Hangul) as int,
                        technical_count(ws) as int,
                    ),
                )
            }
        }),
{
    let total = count_kind_vec(p, CharKind::NonWhitespace);
    if total == 0 {
        return None;
    }
    let latin = count_kind_vec(p, CharKind::AsciiLetter);
    proof {
        lemma_count_kind_le(p@, CharKind::AsciiLetter);
    }
    if latin >= total - latin {
        return None;
    }
    let all = words_vec(p);
    if all.len() == 0 {
        return None;
    }
    let sc = count_sentences_vec(p);
    let syllables = count_kind_vec(p, CharKind::Hangul);
    let mut technical: usize = 0;
    let mut i: usize = 0;
    while i < all.len()
        invariant
            i <= all.len(),
            views(all@) == words(p@),
            technical == technical_count(views(all@).take(i as int)),
            technical <= i,
        decreases all.len() - i,
    {
        assert(views(all@).take(i + 1).drop_last() =~= views(all@).take(i as int));
        assert(views(all@).take(i + 1).last() == all@[i as int]@);
        if is_technical_word_vec(&all[i]) {
            technical += 1;
        }
        i += 1;
    }
    assert(views(all@).take(i as int) =~= views(all@));
    Some(
        KoreanCounts {
            words: all.len(),
            sentences: if sc == 0 {
                1
            } else {
                sc
            },
            syllables,
            technical,
        },
    )
}

/// Flesch counts of a markdown body; see `flesch_counts_spec`.
pub fn readability_counts(body: &str) -> (r: Option<FleschCounts>)
    ensures
        flesch_view(r) == flesch_counts_spec(body@),
{
    let p = strip_markdown_to_prose_vec(&chars_of(body));
    flesch_counts_of_prose(&p)
}

/// Korean readability counts of a markdown body; see `korean_counts_spec`.
pub fn korean_readability_counts(body: &str) -> (r: Option<KoreanCounts>)
    ensures
        korean_view(r) == korean_counts_spec(body@),
{
    let p = strip_markdown_to_prose_vec(&chars_of(body));
    korean_counts_of_prose(&p)
}

/// The Flesch and Korean readability counts are never both present: which one
/// applies depends on whether at least half the prose is ASCII letters.
pub proof fn law_readability_exclusive(body: Seq<char>)
    ensures
        !(flesch_counts_spec(body) is Some && korean_counts_spec(body) is Some),
{
}


// ---------------------------------------------------------------------------
// Metrics
// ---------------------------------------------------------------------------

/// Deterministic measurements of a document.
#[derive(Clone, Debug, PartialEq, Eq)]
pub struct Metrics {
    pub title_chars: usize,
    pub meta_chars: usize,
    pub h1_count: usize,
    /// Places where a heading level was skipped (e.g. H1 followed directly by H3).
    pub heading_skips: usize,
    pub images_total: usize,
    pub images_missing_alt: usize,
    pub internal_links: usize,
    /// External links used as citations / sources.
    pub citation_links: usize,
    /// Characters of the body (front matter excluded).
    pub chars: usize,
    pub keyword_in_title: bool,
    pub keyword_in_h1: bool,
    /// Whether the keyword is within the first 100 characters of the intro.
    pub keyword_in_intro: bool,
    /// Whole-word occurrences of the keyword in the body.
    pub keyword_occurrences: usize,
    /// Counts behind the Flesch scores (English-dominant prose only).
    pub flesch: Option<FleschCounts>,
    /// Counts behind the Korean readability heuristic (other prose only).
    pub korean: Option<KoreanCounts>,
}

/// Number of headings of the given level.
pub open spec fn count_level(hs: Seq<(int, Seq<char>)>, level: int) -> nat
    decreases hs.len(),
{
    if hs.len() == 0 {
        0
    } else {
        count_level(hs.drop_last(), level) + if hs.last().0 == level {
            1nat
        } else {
            0nat
        }
    }
}

/// Text of the first H1, or empty.
pub open spec fn first_h1(hs: Seq<(int, Seq<char>)>) -> Seq<char>
    decreases hs.len(),
{
    if hs.len() == 0 {
        seq![]
    } else if hs[0].0 == 1 {
        hs[0].1
    } else {
        first_h1(hs.drop_first())
    }
}

/// Skipped levels in `hs[i..]`: a heading deeper than one below the previous
/// heading's level (`prev`, 0 before the first heading).
pub open spec fn skips_from(hs: Seq<(int, Seq<char>)>, i: int, prev: int) -> nat
    decreases hs.len() - i,
{
    if i < 0 || i >= hs.len() {
        0
    } else {
        (if hs[i].0 > prev + 1 {
            1nat
        } else {
            0nat
        }) + skips_from(hs, i + 1, hs[i].0)
    }
}

/// Kinds of scanned links that are counted.
#[derive(Clone, Copy, PartialEq, Eq, Debug)]
pub enum LinkKind {
    Image,
    ImageWithoutAlt,
    Internal,
    Citation,
}

pub open spec fn is_link_kind(
    l: (bool, Seq<char>, Seq<char>),
    k: LinkKind,
    site_domain: Seq<char>,
) -> bool {
    match k {
        LinkKind::Image => l.0,
        LinkKind::ImageWithoutAlt => l.0 && trim(l.1).len() == 0,
        LinkKind::Internal => !l.0 && is_internal_spec(l.2, site_domain),
        LinkKind::Citation => !l.0 && !is_internal_spec(l.2, site_domain),
    }
}

pub open spec fn count_links(
    ls: Seq<(bool, Seq<char>, Seq<char>)>,
    k: LinkKind,
    site_domain: Seq<char>,
) -> nat
    decreases ls.len(),
{
    if ls.len() == 0 {
        0
    } else {
        count_links(ls.drop_last(), k, site_domain) + if is_link_kind(ls.last(), k, site_domain) {
            1nat
        } else {
            0nat
        }
    }
}

pub open spec fn opt_len(o: Option<Seq<char>>) -> nat {
    match o {
        Some(s) => s.len(),
        None => 0,
    }
}

pub open spec fn opt_or_empty(o: Option<Seq<char>>) -> Seq<char> {
    match o {
        Some(s) => s,
        None => seq![],
    }
}

pub open spec fn flesch_of(t: Option<(int, int, int)>) -> Option<FleschCounts> {
    match t {
        Some(x) => Some(
            FleschCounts { words: x.0 as usize, syllables: x.1 as usize, sentences: x.2 as usize },
        ),
        None => None,
    }
}

pub open spec fn korean_of(t: Option<(int, int, int, int)>) -> Option<KoreanCounts> {
    match t {
        Some(x) => Some(
            KoreanCounts {
                words: x.0 as usize,
                sentences: x.1 as usize,
                syllables: x.2 as usize,
                technical: x.3 as usize,
            },
        ),
        None => None,
    }
}

/// The metrics of document `d` for a keyword and site domain.
pub open spec fn metrics_spec(d: Seq<char>, keyword: Seq<char>, site_domain: Seq<char>) -> Metrics {
    let pf = parse_front_matter_spec(d);
    let title = opt_or_empty(pf.0);
    let body = pf.2;
    let hs = headings_spec(body);
    let ls = scan_links_spec(body);
    Metrics {
        title_chars: title.len() as usize,
        meta_chars: opt_len(pf.1) as usize,
        h1_count: count_level(hs, 1) as usize,
        heading_skips: skips_from(hs, 0, 0) as usize,
        images_total: count_links(ls, LinkKind::Image, site_domain) as usize,
        images_missing_alt: count_links(ls, LinkKind::ImageWithoutAlt, site_domain) as usize,
        internal_links: count_links(ls, LinkKind::Internal, site_domain) as usize,
        citation_links: count_links(ls, LinkKind::Citation, site_domain) as usize,
        chars: body.len() as usize,
        keyword_in_title: contains_kw_spec(title, keyword),
        keyword_in_h1: contains_kw_spec(first_h1(hs), keyword),
        keyword_in_intro: contains_kw_spec(intro_text_spec(body, 100), keyword),
        keyword_occurrences: count_kw_spec(body, keyword) as usize,
        flesch: flesch_of(flesch_counts_spec(body)),
        korean: korean_of(korean_counts_spec(body)),
    }
}

fn heading_stats(hs: &Vec<(usize, Vec<char>)>) -> (r: (usize, usize, Vec<char>))
    ensures
        r.0 == count_level(heading_views(hs@), 1),
        r.1 == skips_from(heading_views(hs@), 0, 0),
        r.2@ == first_h1(heading_views(hs@)),
{
    let ghost hv = heading_views(hs@);
    let mut h1: usize = 0;
    let mut skips: usize = 0;
    let mut prev: usize = 0;
    let mut first: Option<usize> = None;
    let mut i: usize = 0;
    assert(hv.skip(0) =~= hv);
    while i < hs.len()
        invariant
            i <= hs.len(),
            hv == heading_views(hs@),
            h1 == count_level(hv.take(i as int), 1),
            h1 <= i,
            skips <= i,
            skips + skips_from(hv, i as int, prev as int) == skips_from(hv, 0, 0),
            match first {
                Some(f) => f < i && first_h1(hv) == hv[f as int].1,
                None => first_h1(hv) == first_h1(hv.skip(i as int)),
            },
        decreases hs.len() - i,
    {
        let level = hs[i].0;
        assert(hv.take(i + 1).drop_last() =~= hv.take(i as int));
        if level == 1 {
            h1 += 1;
        }
        if level > prev && level - prev > 1 {
            skips += 1;
        }
        prev = level;
        if first.is_none() {
            assert(hv.skip(i as int).drop_first() =~= hv.skip(i + 1));
            if level == 1 {
                first = Some(i);
            }
        }
        i += 1;
    }
    assert(hv.take(i as int) =~= hv);
    let text = match first {
        Some(f) => subvec(&hs[f].1, 0, hs[f].1.len()),
        None => Vec::new(),
    };
    proof {
        match first {
            Some(f) => {
                assert(text@ =~= hs@[f as int].1@);
            },
            None => {
                assert(text@ =~= seq![]);
            },
        }
    }
    (h1, skips, text)
}

fn link_stats(ls: &Vec<MdLink>, site_domain: &str) -> (r: (usize, usize, usize, usize))
    ensures
        r.0 == count_links(link_views(ls@), LinkKind::Image, site_domain@),
        r.1 == count_links(link_views(ls@), LinkKind::ImageWithoutAlt, site_domain@),
        r.2 == count_links(link_views(ls@), LinkKind::Internal, site_domain@),
        r.3 == count_links(link_views(ls@), LinkKind::Citation, site_domain@),
{
    let ghost lv = link_views(ls@);
    let mut images: usize = 0;
    let mut no_alt: usize = 0;
    let mut internal: usize = 0;
    let mut citation: usize = 0;
    let mut i: usize = 0;
    while i < ls.len()
        invariant
            i <= ls.len(),
            lv == link_views(ls@),
            images == count_links(lv.take(i as int), LinkKind::Image, site_domain@),
            no_alt == count_links(lv.take(i as int), LinkKind::ImageWithoutAlt, site_domain@),
            internal == count_links(lv.take(i as int), LinkKind::Internal, site_domain@),
            citation == count_links(lv.take(i as int), LinkKind::Citation, site_domain@),
            images <= i,
            no_alt <= i,
            internal <= i,
            citation <= i,
        decreases ls.len() - i,
    {
        let l = &ls[i];
        assert(lv.take(i + 1).drop_last() =~= lv.take(i as int));
        assert(lv.take(i + 1).last() == link_view(ls@[i as int]));
        if l.is_image {
            images += 1;
            let label = chars_of(l.label.as_str());
            let t = trim_vec(&label);
            if t.len() == 0 {
                no_alt += 1;
            }
        } else if is_internal_url(l.url.as_str(), site_domain) {
            internal += 1;
        } else {
            citation += 1;
        }
        i += 1;
    }
    assert(lv.take(i as int) =~= lv);
    (images, no_alt, internal, citation)
}

/// Measures a document against the specification's keyword and site domain.
pub fn metrics(doc: &str, spec: &Spec) -> (m: Metrics)
    ensures
        m == metrics_spec(doc@, spec.keyword@, spec.site_domain@),
{
    let (title, meta, body) = parse_front_matter(doc);
    let title_v = match &title {
        Some(t) => chars_of(t.as_str()),
        None => Vec::new(),
    };
    assert(title_v@ =~= opt_or_empty(opt_str_view(title)));
    let meta_len = match &meta {
        Some(t) => chars_of(t.as_str()).len(),
        None => 0,
    };
    let bv = chars_of(body);
    let kw = chars_of(spec.keyword.as_str());
    let hs = headings_vec(&bv);
    let (h1_count, heading_skips, h1_text) = heading_stats(&hs);
    let links = scan_links_vec(&bv);
    let (images_total, images_missing_alt, internal_links, citation_links) = link_stats(
        &links,
        spec.site_domain.as_str(),
    );
    let intro = intro_text_vec(&bv, 100);
    let p = strip_markdown_to_prose_vec(&bv);
    let flesch = flesch_counts_of_prose(&p);
    let korean = korean_counts_of_prose(&p);
    let m = Metrics {
        title_chars: title_v.len(),
        meta_chars: meta_len,
        h1_count,
        heading_skips,
        images_total,
        images_missing_alt,
        internal_links,
        citation_links,
        chars: bv.len(),
        keyword_in_title: contains_kw_vec(&title_v, &kw),
        keyword_in_h1: contains_kw_vec(&h1_text, &kw),
        keyword_in_intro: contains_kw_vec(&intro, &kw),
        keyword_occurrences: count_kw_vec(&bv, &kw),
        flesch,
        korean,
    };
    proof {
        assert(flesch_of(flesch_view(flesch)) == flesch);
        assert(korean_of(korean_view(korean)) == korean);
    }
    m
}

/// Link counts partition the scanned links, and images without alt text are
/// among the images.
pub proof fn law_link_counts_partition(ls: Seq<(bool, Seq<char>, Seq<char>)>, site_domain: Seq<char>)
    ensures
        count_links(ls, LinkKind::Image, site_domain) + count_links(
            ls,
            LinkKind::Internal,
            site_domain,
        ) + count_links(ls, LinkKind::Citation, site_domain) == ls.len(),
        count_links(ls, LinkKind::ImageWithoutAlt, site_domain) <= count_links(
            ls,
            LinkKind::Image,
            site_domain,
        ),
    decreases ls.len(),
{
    if ls.len() > 0 {
        law_link_counts_partition(ls.drop_last(), site_domain);
    }
}


// ---------------------------------------------------------------------------
// Required sections
// ---------------------------------------------------------------------------

/// Some heading matches the section title: the heading's words are non-empty
/// and one of the two word sequences contains the other (whole words,
/// case-insensitive).
pub open spec fn section_present(hs: Seq<(int, Seq<char>)>, title: Seq<char>) -> bool {
    exists|j: int|
        0 <= j < hs.len() && {
            let hn = tokens(#[trigger] hs[j].1);
            hn.len() > 0 && (occurs(hn, tokens(title)) || occurs(tokens(title), hn))
        }
}

/// Titles of the required sections in `secs` that no heading matches, in order.
pub open spec fn missing_from(secs: Seq<Section>, hs: Seq<(int, Seq<char>)>) -> Seq<Seq<char>>
    decreases secs.len(),
{
    if secs.len() == 0 {
        seq![]
    } else {
        missing_from(secs.drop_last(), hs) + if secs.last().required && !section_present(
            hs,
            secs.last().title@,
        ) {
            seq![secs.last().title@]
        } else {
            seq![]
        }
    }
}

pub open spec fn missing_sections_spec(spec: Spec, d: Seq<char>) -> Seq<Seq<char>> {
    missing_from(spec.sections@, headings_spec(parse_front_matter_spec(d).2))
}

fn section_present_vec(hs: &Vec<(usize, Vec<char>)>, htoks: &Vec<Vec<Vec<char>>>, title: &str) -> (r:
    bool)
    requires
        htoks.len() == hs.len(),
        forall|j: int| 0 <= j < hs.len() ==> views(#[trigger] htoks@[j]@) == tokens(hs@[j].1@),
    ensures
        r == section_present(heading_views(hs@), title@),
{
    let want = tokens_vec(&chars_of(title));
    let mut j: usize = 0;
    while j < hs.len()
        invariant
            j <= hs.len() == htoks.len(),
            views(want@) == tokens(title@),
            forall|m: int| 0 <= m < hs.len() ==> views(#[trigger] htoks@[m]@) == tokens(hs@[m].1@),
            forall|m: int|
                0 <= m < j ==> !({
                    let hn = tokens(#[trigger] heading_views(hs@)[m].1);
                    hn.len() > 0 && (occurs(hn, tokens(title@)) || occurs(tokens(title@), hn))
                }),
        decreases hs.len() - j,
    {
        let hn = &htoks[j];
        assert(heading_views(hs@)[j as int].1 == hs@[j as int].1@);
        if hn.len() > 0 && (occurs_vec(hn, &want) || occurs_vec(&want, hn)) {
            return true;
        }
        j += 1;
    }
    false
}

fn missing_sections_of(spec: &Spec, hs: &Vec<(usize, Vec<char>)>) -> (r: Vec<String>)
    ensures
        string_views(r@) == missing_from(spec.sections@, heading_views(hs@)),
{
    let mut htoks: Vec<Vec<Vec<char>>> = Vec::new();
    let mut j: usize = 0;
    while j < hs.len()
        invariant
            j <= hs.len(),
            htoks.len() == j,
            forall|m: int| 0 <= m < j ==> views(#[trigger] htoks@[m]@) == tokens(hs@[m].1@),
        decreases hs.len() - j,
    {
        htoks.push(tokens_vec(&hs[j].1));
        j += 1;
    }
    let mut out: Vec<String> = Vec::new();
    let mut i: usize = 0;
    while i < spec.sections.len()
        invariant
            i <= spec.sections.len(),
            htoks.len() == hs.len(),
            forall|m: int| 0 <= m < hs.len() ==> views(#[trigger] htoks@[m]@) == tokens(hs@[m].1@),
            string_views(out@) == missing_from(spec.sections@.take(i as int), heading_views(hs@)),
        decreases spec.sections.len() - i,
    {
        let sec = &spec.sections[i];
        assert(spec.sections@.take(i + 1).drop_last() =~= spec.sections@.take(i as int));
        assert(spec.sections@.take(i + 1).last() == spec.sections@[i as int]);
        let ghost prev = string_views(out@);
        if sec.required && !section_present_vec(hs, &htoks, sec.title.as_str()) {
            let t = sec.title.clone();
            out.push(t);
            assert(string_views(out@) =~= prev + seq![sec.title@]);
        } else {
            assert(string_views(out@) =~= prev + seq![]);
        }
        i += 1;
    }
    assert(spec.sections@.take(i as int) =~= spec.sections@);
    out
}

/// Titles of required sections that no heading of the body matches; see
/// `section_present`.
pub fn missing_sections(spec: &Spec, doc: &str) -> (r: Vec<String>)
    ensures
        string_views(r@) == missing_sections_spec(*spec, doc@),
{
    let (_, _, body) = parse_front_matter(doc);
    let hs = headings_vec(&chars_of(body));
    missing_sections_of(spec, &hs)
}

/// A title is listed as missing exactly when some required section has that
/// title and no heading matches it.
pub proof fn law_missing_lists_unmatched_required(secs: Seq<Section>, hs: Seq<(int, Seq<char>)>, t: Seq<char>)
    ensures
        missing_from(secs, hs).contains(t) <==> exists|i: int|
            0 <= i < secs.len() && (#[trigger] secs[i]).required && secs[i].title@ == t
                && !section_present(hs, t),
    decreases secs.len(),
{
    if secs.len() > 0 {
        let init = secs.drop_last();
        law_missing_lists_unmatched_required(init, hs, t);
        let last = secs.last();
        let tail: Seq<Seq<char>> = if last.required && !section_present(hs, last.title@) {
            seq![last.title@]
        } else {
            seq![]
        };
        let m = missing_from(secs, hs);
        assert(m == missing_from(init, hs) + tail);
        if m.contains(t) {
            let k = choose|k: int| 0 <= k < m.len() && m[k] == t;
            if k < missing_from(init, hs).len() {
                assert(missing_from(init, hs)[k] == t);
                assert(missing_from(init, hs).contains(t));
                let i = choose|i: int|
                    0 <= i < init.len() && (#[trigger] init[i]).required && init[i].title@ == t
                        && !section_present(hs, t);
                assert(secs[i] == init[i]);
            } else {
                assert(secs[secs.len() - 1] == last);
            }
        }
        if exists|i: int|
            0 <= i < secs.len() && (#[trigger] secs[i]).required && secs[i].title@ == t
                && !section_present(hs, t) {
            let i = choose|i: int|
                0 <= i < secs.len() && (#[trigger] secs[i]).required && secs[i].title@ == t
                    && !section_present(hs, t);
            if i < init.len() {
                assert(init[i] == secs[i]);
                let k = choose|k: int| 0 <= k < missing_from(init, hs).len() && missing_from(
                    init,
                    hs,
                )[k] == t;
                assert(m[k] == t);
            } else {
                assert(m[m.len() - 1] == t);
            }
        }
    }
}

/// A heading with the same words as a section title, whatever their case,
/// spacing or punctuation, satisfies the section.
pub proof fn law_heading_with_title_words_satisfies_section(hs: Seq<(int, Seq<char>)>, title: Seq<char>, j: int)
    requires
        0 <= j < hs.len(),
        tokens(hs[j].1) == tokens(title),
        tokens(title).len() > 0,
    ensures
        section_present(hs, title),
{
    let hn = tokens(hs[j].1);
    assert(hn.subrange(0, tokens(title).len() as int) =~= tokens(title));
    assert(occurs_at(hn, tokens(title), 0));
}


// ---------------------------------------------------------------------------
// Format findings
// ---------------------------------------------------------------------------

pub open spec fn unclosed_message() -> Seq<char> {
    "Front matter does not end with a closing `---` → title/meta_description could not be \
     recognized and the entire document is treated as body text (this can corrupt readability/heading checks) → check for the closing `---`"@
}

pub open spec fn range_message(what: Seq<char>, n: nat, lo: nat, hi: nat) -> Seq<char> {
    what + " length "@ + decimal(n) + " chars (recommended "@ + decimal(lo) + "-"@ + decimal(hi)
        + " chars) → adjust length"@
}

pub open spec fn keyword_message(kw: Seq<char>, place: Seq<char>) -> Seq<char> {
    "Target keyword '"@ + kw + place
}

/// Findings about title and meta description lengths.
pub open spec fn length_issues(spec: Spec, m: Metrics) -> Seq<Seq<char>> {
    (if m.title_chars == 0 {
        seq!["Missing title (front matter needs `title:`) → add one"@]
    } else if m.title_chars < spec.title_min || m.title_chars > spec.title_max {
        seq![range_message("title"@, m.title_chars as nat, spec.title_min as nat, spec.title_max as nat)]
    } else {
        seq![]
    }) + (if m.meta_chars == 0 {
        seq!["Missing meta_description (front matter needs `meta_description:`) → add one"@]
    } else if m.meta_chars < spec.meta_min || m.meta_chars > spec.meta_max {
        seq![range_message("meta_description"@, m.meta_chars as nat, spec.meta_min as nat, spec.meta_max as nat)]
    } else {
        seq![]
    })
}

/// Findings about the heading structure.
pub open spec fn heading_issues(m: Metrics) -> Seq<Seq<char>> {
    (if m.h1_count == 0 {
        seq!["No H1 → add one `# Title` heading to the body"@]
    } else if m.h1_count > 1 {
        seq![decimal(m.h1_count as nat) + " H1 headings found → keep exactly one and demote the rest to H2 or lower"@]
    } else {
        seq![]
    }) + (if m.heading_skips > 0 {
        seq![decimal(m.heading_skips as nat) + " heading level skip(s) found (e.g. H1 followed directly by H3) → insert headings in hierarchical order"@]
    } else {
        seq![]
    })
}

/// Findings about keyword placement (none for a blank keyword).
pub open spec fn keyword_issues(spec: Spec, m: Metrics) -> Seq<Seq<char>> {
    let kw = spec.keyword@;
    if trim(kw).len() == 0 {
        seq![]
    } else {
        (if !m.keyword_in_title {
            seq![keyword_message(kw, "' not found in title → place it there"@)]
        } else {
            seq![]
        }) + (if !m.keyword_in_h1 {
            seq![keyword_message(kw, "' not found in H1 → place it there"@)]
        } else {
            seq![]
        }) + (if !m.keyword_in_intro {
            seq![keyword_message(kw, "' not found within the first 100 chars of the intro → place it there"@)]
        } else {
            seq![]
        })
    }
}

/// Findings about alt text, internal links and citations.
pub open spec fn link_issues(spec: Spec, m: Metrics) -> Seq<Seq<char>> {
    (if m.images_total > 0 && m.images_missing_alt > 0 {
        seq![decimal(m.images_missing_alt as nat) + " image(s) missing alt text (out of "@ + decimal(m.images_total as nat) + " total) → fill in alt text"@]
    } else {
        seq![]
    }) + (if m.internal_links < spec.internal_links_min || m.internal_links > spec.internal_links_max {
        seq!["Internal links: "@ + decimal(m.internal_links as nat) + " (recommended "@ + decimal(spec.internal_links_min as nat) + "-"@ + decimal(spec.internal_links_max as nat) + ") → adjust the count — this range varies a lot depending on site structure and article length, so treat it as a guideline"@]
    } else {
        seq![]
    }) + (if m.citation_links < spec.min_citations {
        seq!["Citation/source links: "@ + decimal(m.citation_links as nat) + " → at least "@ + decimal(spec.min_citations as nat) + " required (E-E-A-T; the related scoring criterion is capped at 60 points)"@]
    } else {
        seq![]
    })
}

pub open spec fn missing_section_messages(titles: Seq<Seq<char>>) -> Seq<Seq<char>>
    decreases titles.len(),
{
    if titles.len() == 0 {
        seq![]
    } else {
        missing_section_messages(titles.drop_last()) + seq![
            "Recommended section '"@ + titles.last() + "' is missing → add it"@,
        ]
    }
}

/// All deterministic format and on-page findings for document `d`, in order:
/// unclosed front matter, title/meta lengths, H1 count, heading skips, keyword
/// placement, alt text, internal links, citations, missing required sections,
/// long paragraphs.
pub open spec fn format_issues_spec(spec: Spec, d: Seq<char>) -> Seq<Seq<char>> {
    let m = metrics_spec(d, spec.keyword@, spec.site_domain@);
    (if front_matter_unclosed_spec(d) {
        seq![unclosed_message()]
    } else {
        seq![]
    }) + length_issues(spec, m) + heading_issues(m) + keyword_issues(spec, m) + link_issues(spec, m)
        + missing_section_messages(missing_sections_spec(spec, d)) + paragraph_issues_spec(
        parse_front_matter_spec(d).2,
    )
}

fn cat(a: &str, b: &str) -> (r: String)
    ensures
        r@ == a@ + b@,
{
    let mut s = String::new();
    s.append(a);
    s.append(b);
    assert(s@ =~= a@ + b@);
    s
}

fn range_message_string(what: &str, n: usize, lo: usize, hi: usize) -> (r: String)
    ensures
        r@ == range_message(what@, n as nat, lo as nat, hi as nat),
{
    let mut s = cat(what, " length ");
    s.append(fmt_usize(n).as_str());
    s.append(" chars (recommended ");
    s.append(fmt_usize(lo).as_str());
    s.append("-");
    s.append(fmt_usize(hi).as_str());
    s.append(" chars) → adjust length");
    s
}

fn push_str_view(out: &mut Vec<String>, s: String)
    ensures
        string_views(final(out)@) == string_views(old(out)@) + seq![s@],
{
    let ghost prev = string_views(out@);
    out.push(s);
    assert(string_views(out@) =~= prev + seq![s@]);
}

fn append_all(out: &mut Vec<String>, more: Vec<String>)
    ensures
        string_views(final(out)@) == string_views(old(out)@) + string_views(more@),
{
    let ghost o0 = string_views(out@);
    let mut i: usize = 0;
    while i < more.len()
        invariant
            i <= more.len(),
            string_views(out@) == o0 + string_views(more@).take(i as int),
        decreases more.len() - i,
    {
        let x = more[i].clone();
        push_str_view(out, x);
        assert(string_views(more@).take(i + 1) =~= string_views(more@).take(i as int).push(more@[i as int]@));
        i += 1;
    }
    assert(string_views(more@).take(i as int) =~= string_views(more@));
}

fn length_issues_vec(spec: &Spec, m: &Metrics) -> (r: Vec<String>)
    ensures
        string_views(r@) == length_issues(*spec, *m),
{
    let mut out: Vec<String> = Vec::new();
    if m.title_chars == 0 {
        push_str_view(&mut out, cat("Missing title (front matter needs `title:`) → add one", ""));
        assert("Missing title (front matter needs `title:`) → add one"@ + ""@ =~= "Missing title (front matter needs `title:`) → add one"@) by {
            reveal_strlit("");
        }
    } else if m.title_chars < spec.title_min || m.title_chars > spec.title_max {
        push_str_view(
            &mut out,
            range_message_string("title", m.title_chars, spec.title_min, spec.title_max),
        );
    }
    let ghost part1 = string_views(out@);
    if m.meta_chars == 0 {
        push_str_view(
            &mut out,
            cat("Missing meta_description (front matter needs `meta_description:`) → add one", ""),
        );
        assert("Missing meta_description (front matter needs `meta_description:`) → add one"@ + ""@ =~= "Missing meta_description (front matter needs `meta_description:`) → add one"@) by {
            reveal_strlit("");
        }
    } else if m.meta_chars < spec.meta_min || m.meta_chars > spec.meta_max {
        push_str_view(
            &mut out,
            range_message_string("meta_description", m.meta_chars, spec.meta_min, spec.meta_max),
        );
    }
    assert(part1 + seq![] =~= part1);
    assert(Seq::<Seq<char>>::empty() + Seq::<Seq<char>>::empty() =~= Seq::<Seq<char>>::empty());
    out
}

fn heading_issues_vec(m: &Metrics) -> (r: Vec<String>)
    ensures
        string_views(r@) == heading_issues(*m),
{
    let mut out: Vec<String> = Vec::new();
    if m.h1_count == 0 {
        push_str_view(&mut out, cat("No H1 → add one `# Title` heading to the body", ""));
        assert("No H1 → add one `# Title` heading to the body"@ + ""@ =~= "No H1 → add one `# Title` heading to the body"@) by {
            reveal_strlit("");
        }
    } else if m.h1_count > 1 {
        push_str_view(
            &mut out,
            cat(
                fmt_usize(m.h1_count).as_str(),
                " H1 headings found → keep exactly one and demote the rest to H2 or lower",
            ),
        );
    }
    let ghost part1 = string_views(out@);
    if m.heading_skips > 0 {
        push_str_view(
            &mut out,
            cat(
                fmt_usize(m.heading_skips).as_str(),
                " heading level skip(s) found (e.g. H1 followed directly by H3) → insert headings in hierarchical order",
            ),
        );
    }
    assert(part1 + seq![] =~= part1);
    out
}

fn keyword_issues_vec(spec: &Spec, m: &Metrics) -> (r: Vec<String>)
    ensures
        string_views(r@) == keyword_issues(*spec, *m),
{
    let mut out: Vec<String> = Vec::new();
    let kw = trim_vec(&chars_of(spec.keyword.as_str()));
    if kw.len() == 0 {
        return out;
    }
    let k = spec.keyword.as_str();
    if !m.keyword_in_title {
        let mut s = cat("Target keyword '", k);
        s.append("' not found in title → place it there");
        push_str_view(&mut out, s);
    }
    let ghost p1 = string_views(out@);
    if !m.keyword_in_h1 {
        let mut s = cat("Target keyword '", k);
        s.append("' not found in H1 → place it there");
        push_str_view(&mut out, s);
    }
    let ghost p2 = string_views(out@);
    if !m.keyword_in_intro {
        let mut s = cat("Target keyword '", k);
        s.append("' not found within the first 100 chars of the intro → place it there");
        push_str_view(&mut out, s);
    }
    assert(p1 + seq![] =~= p1);
    assert(p2 + seq![] =~= p2);
    out
}

fn link_issues_vec(spec: &Spec, m: &Metrics) -> (r: Vec<String>)
    ensures
        string_views(r@) == link_issues(*spec, *m),
{
    let mut out: Vec<String> = Vec::new();
    if m.images_total > 0 && m.images_missing_alt > 0 {
        let mut s = cat(fmt_usize(m.images_missing_alt).as_str(), " image(s) missing alt text (out of ");
        s.append(fmt_usize(m.images_total).as_str());
        s.append(" total) → fill in alt text");
        push_str_view(&mut out, s);
    }
    let ghost p1 = string_views(out@);
    if m.internal_links < spec.internal_links_min || m.internal_links > spec.internal_links_max {
        let mut s = cat("Internal links: ", fmt_usize(m.internal_links).as_str());
        s.append(" (recommended ");
        s.append(fmt_usize(spec.internal_links_min).as_str());
        s.append("-");
        s.append(fmt_usize(spec.internal_links_max).as_str());
        s.append(") → adjust the count — this range varies a lot depending on site structure and article length, so treat it as a guideline");
        push_str_view(&mut out, s);
    }
    let ghost p2 = string_views(out@);
    if m.citation_links < spec.min_citations {
        let mut s = cat("Citation/source links: ", fmt_usize(m.citation_links).as_str());
        s.append(" → at least ");
        s.append(fmt_usize(spec.min_citations).as_str());
        s.append(" required (E-E-A-T; the related scoring criterion is capped at 60 points)");
        push_str_view(&mut out, s);
    }
    assert(p1 + seq![] =~= p1);
    assert(p2 + seq![] =~= p2);
    assert(Seq::<Seq<char>>::empty() + Seq::<Seq<char>>::empty() =~= Seq::<Seq<char>>::empty());
    out
}

fn missing_section_messages_vec(titles: &Vec<String>) -> (r: Vec<String>)
    ensures
        string_views(r@) == missing_section_messages(string_views(titles@)),
{
    let mut out: Vec<String> = Vec::new();
    let mut i: usize = 0;
    while i < titles.len()
        invariant
            i <= titles.len(),
            string_views(out@) == missing_section_messages(string_views(titles@).take(i as int)),
        decreases titles.len() - i,
    {
        assert(string_views(titles@).take(i + 1).drop_last() =~= string_views(titles@).take(i as int));
        assert(string_views(titles@).take(i + 1).last() == titles@[i as int]@);
        let mut s = cat("Recommended section '", titles[i].as_str());
        s.append("' is missing → add it");
        push_str_view(&mut out, s);
        i += 1;
    }
    assert(string_views(titles@).take(i as int) =~= string_views(titles@));
    out
}

/// Deterministic format and on-page findings; see `format_issues_spec`.
pub fn format_issues(spec: &Spec, doc: &str) -> (r: Vec<String>)
    ensures
        string_views(r@) == format_issues_spec(*spec, doc@),
{
    let mut issues: Vec<String> = Vec::new();
    let v = chars_of(doc);
    if front_matter_unclosed(&v) {
        push_str_view(&mut issues, cat(
            "Front matter does not end with a closing `---` → title/meta_description could not be \
             recognized and the entire document is treated as body text (this can corrupt readability/heading checks) → check for the closing `---`",
            "",
        ));
        assert(unclosed_message() + ""@ =~= unclosed_message()) by {
            reveal_strlit("");
        }
    } else {
        assert(string_views(issues@) =~= seq![]);
    }
    let m = metrics(doc, spec);
    append_all(&mut issues, length_issues_vec(spec, &m));
    append_all(&mut issues, heading_issues_vec(&m));
    append_all(&mut issues, keyword_issues_vec(spec, &m));
    append_all(&mut issues, link_issues_vec(spec, &m));
    let missing = missing_sections(spec, doc);
    append_all(&mut issues, missing_section_messages_vec(&missing));
    let (_, _, body) = parse_front_matter(doc);
    append_all(&mut issues, paragraph_length_issues(body));
    issues
}

/// A document is flagged as having unclosed front matter exactly when it starts
/// with `---` but no complete front matter could be read; each missing required
/// section gets its own finding.
pub proof fn law_format_issues_flag_unclosed(spec: Spec, d: Seq<char>)
    ensures
        front_matter_unclosed_spec(d) ==> format_issues_spec(spec, d)[0] == unclosed_message(),
        front_matter_unclosed_spec(d) ==> parse_front_matter_spec(d) == (
            None::<Seq<char>>,
            None::<Seq<char>>,
            d,
        ),
        missing_section_messages(missing_sections_spec(spec, d)).len()
            == missing_sections_spec(spec, d).len(),
{
    lemma_missing_messages_len(missing_sections_spec(spec, d));
}

proof fn lemma_missing_messages_len(titles: Seq<Seq<char>>)
    ensures
        missing_section_messages(titles).len() == titles.len(),
    decreases titles.len(),
{
    if titles.len() > 0 {
        lemma_missing_messages_len(titles.drop_last());
    }
}


// ---------------------------------------------------------------------------
// What the measurements mean
// ---------------------------------------------------------------------------

/// The body length counts the body alone: it is the length of the body that
/// `parse_front_matter` returns, and a document with complete front matter
/// always has a body shorter than the whole document.
pub proof fn law_body_chars_exclude_front_matter(d: Seq<char>, keyword: Seq<char>, site_domain: Seq<char>)
    ensures
        metrics_spec(d, keyword, site_domain).chars == parse_front_matter_spec(d).2.len() as usize,
        front_matter_spec(d) is Some ==> (metrics_spec(d, keyword, site_domain).chars as int) < d.len(),
{
    reveal_strlit("---");
    let b = d.len() - trim_start_by(d, CharClass::ByteOrderMark).len();
    crate::text::lemma_trim_start_by_suffix(d, CharClass::ByteOrderMark);
    if starts_with(d.skip(b), "---"@) {
        let nl = next_index(d, '\n', b + "---"@.len());
        lemma_next_index(d, '\n', b + "---"@.len());
        if nl < d.len() {
            lemma_fm_scan_bounds(d, nl + 1, nl + 1, None, None);
            match fm_scan(d, nl + 1, nl + 1, None, None) {
                None => {},
                Some(r) => {
                    crate::text::lemma_trim_start_by_suffix(d.skip(r.2), CharClass::LineBreak);
                    let body = trim_start_by(d.skip(r.2), CharClass::LineBreak);
                    assert(body.len() <= d.len() - r.2);
                    assert(d.skip(d.len() - body.len()).len() == body.len());
                },
            }
        }
    }
}

/// An internal link count outside the specification's range, too few or too
/// many, always yields a finding that starts with `Internal links: `.
pub proof fn law_internal_links_out_of_range_flagged(spec: Spec, d: Seq<char>)
    requires
        ({
            let m = metrics_spec(d, spec.keyword@, spec.site_domain@);
            m.internal_links < spec.internal_links_min || m.internal_links > spec.internal_links_max
        }),
    ensures
        exists|k: int|
            0 <= k < format_issues_spec(spec, d).len() && starts_with(
                #[trigger] format_issues_spec(spec, d)[k],
                "Internal links: "@,
            ),
{
    let m = metrics_spec(d, spec.keyword@, spec.site_domain@);
    let head: Seq<Seq<char>> = (if front_matter_unclosed_spec(d) {
        seq![unclosed_message()]
    } else {
        seq![]
    }) + length_issues(spec, m) + heading_issues(m) + keyword_issues(spec, m);
    let alt: Seq<Seq<char>> = if m.images_total > 0 && m.images_missing_alt > 0 {
        seq![decimal(m.images_missing_alt as nat) + " image(s) missing alt text (out of "@ + decimal(m.images_total as nat) + " total) → fill in alt text"@]
    } else {
        seq![]
    };
    let msg = "Internal links: "@ + decimal(m.internal_links as nat) + " (recommended "@ + decimal(spec.internal_links_min as nat) + "-"@ + decimal(spec.internal_links_max as nat) + ") → adjust the count — this range varies a lot depending on site structure and article length, so treat it as a guideline"@;
    let li = link_issues(spec, m);
    assert(li[alt.len() as int] == msg);
    let fi = format_issues_spec(spec, d);
    let k: int = (head.len() + alt.len()) as int;
    assert(fi == head + li + missing_section_messages(missing_sections_spec(spec, d))
        + paragraph_issues_spec(parse_front_matter_spec(d).2));
    assert(fi[k] == msg);
    assert(msg.take("Internal links: "@.len() as int) =~= "Internal links: "@);
    assert(starts_with(fi[k], "Internal links: "@));
}

proof fn lemma_sentences_push(s: Seq<char>, c: char, i: int)
    requires
        0 <= i <= s.len(),
        s.len() == 0 || !(s.last() == '.' || s.last() == '!' || s.last() == '?') || is_ws(c),
    ensures
        sentences_from(s.push(c), i) == sentences_from(s, i) + (if (c == '.' || c == '!' || c
            == '?') {
            1int
        } else {
            0int
        }),
    decreases s.len() - i,
{
    let t = s.push(c);
    if i < s.len() {
        lemma_sentences_push(s, c, i + 1);
        assert(t[i] == s[i]);
        if i + 1 < s.len() {
            assert(t[i + 1] == s[i + 1]);
        } else {
            assert(t[i + 1] == c);
        }
    } else {
        assert(t[i] == c);
        assert(sentences_from(t, i + 1) == 0);
    }
}

/// How the sentence count grows as a text is written: appending `.`, `!` or
/// `?` after a character that is not one of them adds a sentence; appending
/// whitespace never changes the count; appending any other character after a
/// character that is not a sentence mark changes nothing.
pub proof fn law_sentence_count_on_append(s: Seq<char>, c: char)
    ensures
        (s.len() == 0 || !(s.last() == '.' || s.last() == '!' || s.last() == '?')) && (c == '.'
            || c == '!' || c == '?') ==> sentence_count(s.push(c)) == sentence_count(s) + 1,
        is_ws(c) ==> sentence_count(s.push(c)) == sentence_count(s),
        (s.len() == 0 || !(s.last() == '.' || s.last() == '!' || s.last() == '?')) && !(c == '.'
            || c == '!' || c == '?') ==> sentence_count(s.push(c)) == sentence_count(s),
{
    if (s.len() == 0 || !(s.last() == '.' || s.last() == '!' || s.last() == '?')) || is_ws(c) {
        lemma_sentences_push(s, c, 0);
    }
}

/// The Flesch sentence count is the sentence count of the body's prose, at
/// least one.
pub proof fn law_flesch_sentences(body: Seq<char>)
    ensures
        flesch_counts_spec(body) matches Some(c) ==> c.2 == if sentence_count(prose_spec(body))
            == 0 {
            1
        } else {
            sentence_count(prose_spec(body)) as int
        },
{
}

proof fn lemma_scheme_end_from(s: Seq<char>, m: int)
    requires
        0 <= m,
    ensures
        m <= scheme_end(s, m) || scheme_end(s, m) == s.len(),
        scheme_end(s, m) >= 0,
    decreases s.len() - m,
{
    if m < s.len() && is_scheme_char(s[m]) {
        lemma_scheme_end_from(s, m + 1);
    }
}

proof fn lemma_scheme_has_colon(n: Seq<char>)
    requires
        has_scheme(n),
    ensures
        n.contains(':'),
{
    lemma_scheme_end_from(n, 1);
    let k = scheme_end(n, 1);
    assert(0 <= k < n.len() && n[k] == ':');
}

/// A link target that, once normalised, has no `:` (so no scheme such as
/// `https:` or `mailto:`) and does not start with `//` is a relative link:
/// internal for every site domain.
pub proof fn law_relative_links_are_internal(url: Seq<char>, site_domain: Seq<char>)
    requires
        !url_norm(url).contains(':'),
        !starts_with(url_norm(url), "//"@),
    ensures
        is_internal_spec(url, site_domain),
{
    reveal_strlit("https://");
    reveal_strlit("http://");
    reveal_strlit("//");
    let n = url_norm(url);
    if starts_with(n, "https://"@) {
        assert(n[5] == "https://"@[5]);
        assert(n.contains(':'));
    }
    if starts_with(n, "http://"@) {
        assert(n[4] == "http://"@[4]);
        assert(n.contains(':'));
    }
    if has_scheme(n) {
        lemma_scheme_has_colon(n);
    }
}

/// A heading satisfies a section when its words form a contiguous part of the
/// title's words, or the title's words a contiguous part of its words (in
/// either case ignoring case and punctuation), and a title so satisfied is
/// never listed as missing.
pub proof fn law_heading_part_of_title_satisfies_section(
    secs: Seq<Section>,
    hs: Seq<(int, Seq<char>)>,
    t: Seq<char>,
    j: int,
    at: int,
)
    requires
        0 <= j < hs.len(),
        tokens(hs[j].1).len() > 0,
        ({
            let hn = tokens(hs[j].1);
            let tt = tokens(t);
            (0 <= at && at + hn.len() <= tt.len() && tt.subrange(at, at + hn.len()) == hn) || (0
                <= at && at + tt.len() <= hn.len() && hn.subrange(at, at + tt.len()) == tt)
        }),
    ensures
        section_present(hs, t),
        !missing_from(secs, hs).contains(t),
{
    let hn = tokens(hs[j].1);
    let tt = tokens(t);
    if 0 <= at && at + hn.len() <= tt.len() && tt.subrange(at, at + hn.len()) == hn {
        assert(occurs_at(tt, hn, at));
    } else {
        assert(occurs_at(hn, tt, at));
    }
    assert(section_present(hs, t));
    law_missing_lists_unmatched_required(secs, hs, t);
}

} // verus!
