//! Character-level text model shared by every check: character classes,
//! trimming, line splitting, word splitting and decimal rendering, each
//! given as a spec function over `Seq<char>` with an executable counterpart
//! working on `Vec<char>`.
use vstd::prelude::*;

verus! {

// ---------------------------------------------------------------------------
// Character classes
// ---------------------------------------------------------------------------

/// Unicode `White_Space` property (the set `char::is_whitespace` tests).
pub open spec fn is_ws(c: char) -> bool {
    let u = c as u32;
    ||| (0x09 <= u && u <= 0x0d)
    ||| u == 0x20
    ||| u == 0x85
    ||| u == 0xa0
    ||| u == 0x1680
    ||| (0x2000 <= u && u <= 0x200a)
    ||| u == 0x2028
    ||| u == 0x2029
    ||| u == 0x202f
    ||| u == 0x205f
    ||| u == 0x3000
}

pub fn is_whitespace(c: char) -> (b: bool)
    ensures
        b == is_ws(c),
{
    let u = c as u32;
    (0x09 <= u && u <= 0x0d) || u == 0x20 || u == 0x85 || u == 0xa0 || u == 0x1680 || (0x2000 <= u
        && u <= 0x200a) || u == 0x2028 || u == 0x2029 || u == 0x202f || u == 0x205f || u == 0x3000
}

pub open spec fn is_ascii_alpha(c: char) -> bool {
    let u = c as u32;
    (0x41 <= u && u <= 0x5a) || (0x61 <= u && u <= 0x7a)
}

pub fn is_ascii_alphabetic(c: char) -> (b: bool)
    ensures
        b == is_ascii_alpha(c),
{
    let u = c as u32;
    (0x41 <= u && u <= 0x5a) || (0x61 <= u && u <= 0x7a)
}

/// A precomposed Hangul syllable (`'가'..='힣'`).
pub open spec fn is_hangul(c: char) -> bool {
    let u = c as u32;
    0xac00 <= u && u <= 0xd7a3
}

pub fn is_hangul_syllable(c: char) -> (b: bool)
    ensures
        b == is_hangul(c),
{
    let u = c as u32;
    0xac00 <= u && u <= 0xd7a3
}

/// What `char::is_alphanumeric` answers for `c` (Unicode `Alphabetic` or `Numeric`).
pub uninterp spec fn alphanumeric(c: char) -> bool;

/// Calls `char::is_alphanumeric`. The contract claims only that the answer is
/// the named Unicode property of `c`; the property table itself is not stated.
#[verifier::external_body]
pub(crate) fn is_alphanumeric(c: char) -> (b: bool)
    ensures
        b == alphanumeric(c),
{
    c.is_alphanumeric()
}

/// What `str::to_lowercase` returns for a string (full Unicode lowercase mapping).
pub uninterp spec fn lowercase(s: Seq<char>) -> Seq<char>;

/// Calls `str::to_lowercase`. The contract claims only that the result is a
/// function of the input's characters; the Unicode case tables are not stated.
#[verifier::external_body]
pub(crate) fn to_lowercase(s: &str) -> (r: String)
    ensures
        r@ == lowercase(s@),
{
    s.to_lowercase()
}

/// Builds a `String` from characters with `String::from_iter`; the contract
/// claims the string holds exactly those characters, in order.
#[verifier::external_body]
pub(crate) fn string_of(v: &Vec<char>) -> (s: String)
    ensures
        s@ == v@,
{
    String::from_iter(v)
}

/// The characters of a string slice, in order.
pub fn chars_of(s: &str) -> (v: Vec<char>)
    ensures
        v@ == s@,
{
    broadcast use vstd::string::group_string_axioms;

    let mut v: Vec<char> = Vec::new();
    for c in it: s.chars()
        invariant
            v@ == it.seq().take(it.index() as int),
    {
        v.push(c);
    }
    v
}

/// Character classes used for trimming.
#[derive(Clone, Copy, PartialEq, Eq, Debug)]
pub enum CharClass {
    Whitespace,
    Hash,
    ByteOrderMark,
    LineBreak,
    /// Neither alphanumeric nor a Hangul syllable.
    NonWord,
    Backtick,
}

pub open spec fn in_class(c: char, k: CharClass) -> bool {
    match k {
        CharClass::Whitespace => is_ws(c),
        CharClass::Hash => c == '#',
        CharClass::ByteOrderMark => c == '\u{feff}',
        CharClass::LineBreak => c == '\n' || c == '\r',
        CharClass::NonWord => !alphanumeric(c) && !is_hangul(c),
        CharClass::Backtick => c == '`',
    }
}

pub fn char_in_class(c: char, k: CharClass) -> (b: bool)
    ensures
        b == in_class(c, k),
{
    match k {
        CharClass::Whitespace => is_whitespace(c),
        CharClass::Hash => c == '#',
        CharClass::ByteOrderMark => c == '\u{feff}',
        CharClass::LineBreak => c == '\n' || c == '\r',
        CharClass::NonWord => !is_alphanumeric(c) && !is_hangul_syllable(c),
        CharClass::Backtick => c == '`',
    }
}

// ---------------------------------------------------------------------------
// Trimming
// ---------------------------------------------------------------------------

/// `s` without its leading characters of class `k`.
pub open spec fn trim_start_by(s: Seq<char>, k: CharClass) -> Seq<char>
    decreases s.len(),
{
    if s.len() > 0 && in_class(s[0], k) {
        trim_start_by(s.drop_first(), k)
    } else {
        s
    }
}

/// `s` without its trailing characters of class `k`.
pub open spec fn trim_end_by(s: Seq<char>, k: CharClass) -> Seq<char>
    decreases s.len(),
{
    if s.len() > 0 && in_class(s.last(), k) {
        trim_end_by(s.drop_last(), k)
    } else {
        s
    }
}

pub open spec fn trim_start(s: Seq<char>) -> Seq<char> {
    trim_start_by(s, CharClass::Whitespace)
}

pub open spec fn trim_end(s: Seq<char>) -> Seq<char> {
    trim_end_by(s, CharClass::Whitespace)
}

/// `str::trim`: both ends stripped of whitespace.
pub open spec fn trim(s: Seq<char>) -> Seq<char> {
    trim_end(trim_start(s))
}

pub proof fn lemma_trim_start_by_suffix(s: Seq<char>, k: CharClass)
    ensures
        trim_start_by(s, k).len() <= s.len(),
        trim_start_by(s, k) =~= s.skip(s.len() - trim_start_by(s, k).len()),
        trim_start_by(s, k).len() > 0 ==> !in_class(trim_start_by(s, k)[0], k),
    decreases s.len(),
{
    if s.len() > 0 && in_class(s[0], k) {
        lemma_trim_start_by_suffix(s.drop_first(), k);
    }
}

pub proof fn lemma_trim_end_by_prefix(s: Seq<char>, k: CharClass)
    ensures
        trim_end_by(s, k).len() <= s.len(),
        trim_end_by(s, k) =~= s.take(trim_end_by(s, k).len() as int),
        trim_end_by(s, k).len() > 0 ==> !in_class(trim_end_by(s, k).last(), k),
    decreases s.len(),
{
    if s.len() > 0 && in_class(s.last(), k) {
        lemma_trim_end_by_prefix(s.drop_last(), k);
    }
}

/// `v[a..b]` as a new vector.
pub fn subvec(v: &Vec<char>, a: usize, b: usize) -> (r: Vec<char>)
    requires
        a <= b <= v.len(),
    ensures
        r@ == v@.subrange(a as int, b as int),
{
    let mut r: Vec<char> = Vec::new();
    let mut i = a;
    while i < b
        invariant
            a <= i <= b <= v.len(),
            r@ == v@.subrange(a as int, i as int),
        decreases b - i,
    {
        r.push(v[i]);
        i += 1;
    }
    r
}

/// Index of the first character of `v` not in class `k` (or `v.len()`).
pub fn start_index_by(v: &Vec<char>, k: CharClass) -> (i: usize)
    ensures
        i <= v.len(),
        trim_start_by(v@, k) == v@.skip(i as int),
{
    let mut i: usize = 0;
    assert(v@.skip(0) =~= v@);
    while i < v.len() && char_in_class(v[i], k)
        invariant
            i <= v.len(),
            trim_start_by(v@.skip(i as int), k) == trim_start_by(v@, k),
        decreases v.len() - i,
    {
        assert(v@.skip(i as int).drop_first() =~= v@.skip(i + 1));
        i += 1;
    }
    i
}

/// One past the index of the last character of `v` not in class `k` (or 0).
pub fn end_index_by(v: &Vec<char>, k: CharClass) -> (j: usize)
    ensures
        j <= v.len(),
        trim_end_by(v@, k) == v@.take(j as int),
{
    let mut j: usize = v.len();
    assert(v@.take(j as int) =~= v@);
    while j > 0 && char_in_class(v[j - 1], k)
        invariant
            j <= v.len(),
            trim_end_by(v@.take(j as int), k) == trim_end_by(v@, k),
        decreases j,
    {
        assert(v@.take(j as int).drop_last() =~= v@.take(j - 1));
        j -= 1;
    }
    j
}

/// Index of the first character of `v[from..]` not in class `k` (or `v.len()`).
pub fn start_index_from(v: &Vec<char>, from: usize, k: CharClass) -> (i: usize)
    requires
        from <= v.len(),
    ensures
        from <= i <= v.len(),
        trim_start_by(v@.skip(from as int), k) == v@.skip(i as int),
{
    let mut i: usize = from;
    while i < v.len() && char_in_class(v[i], k)
        invariant
            from <= i <= v.len(),
            trim_start_by(v@.skip(i as int), k) == trim_start_by(v@.skip(from as int), k),
        decreases v.len() - i,
    {
        assert(v@.skip(i as int).drop_first() =~= v@.skip(i + 1));
        i += 1;
    }
    i
}

pub fn trim_start_vec_by(v: &Vec<char>, k: CharClass) -> (r: Vec<char>)
    ensures
        r@ == trim_start_by(v@, k),
{
    let i = start_index_by(v, k);
    subvec(v, i, v.len())
}

pub fn trim_end_vec_by(v: &Vec<char>, k: CharClass) -> (r: Vec<char>)
    ensures
        r@ == trim_end_by(v@, k),
{
    let j = end_index_by(v, k);
    subvec(v, 0, j)
}

pub fn trim_start_vec(v: &Vec<char>) -> (r: Vec<char>)
    ensures
        r@ == trim_start(v@),
{
    trim_start_vec_by(v, CharClass::Whitespace)
}

pub fn trim_vec(v: &Vec<char>) -> (r: Vec<char>)
    ensures
        r@ == trim(v@),
{
    let s = trim_start_vec_by(v, CharClass::Whitespace);
    trim_end_vec_by(&s, CharClass::Whitespace)
}

// ---------------------------------------------------------------------------
// Searching
// ---------------------------------------------------------------------------

/// First index at or after `pos` holding `c`, or `s.len()` when there is none.
pub open spec fn next_index(s: Seq<char>, c: char, pos: int) -> int
    decreases s.len() - pos,
{
    if pos >= s.len() {
        s.len() as int
    } else if s[pos] == c {
        pos
    } else {
        next_index(s, c, pos + 1)
    }
}

pub proof fn lemma_next_index(s: Seq<char>, c: char, pos: int)
    requires
        0 <= pos <= s.len(),
    ensures
        pos <= next_index(s, c, pos) <= s.len(),
        next_index(s, c, pos) < s.len() ==> s[next_index(s, c, pos)] == c,
        forall|k: int| pos <= k < next_index(s, c, pos) ==> s[k] != c,
    decreases s.len() - pos,
{
    if pos < s.len() && s[pos] != c {
        lemma_next_index(s, c, pos + 1);
    }
}

/// First index at or after `pos` holding `c`, or `v.len()`.
pub fn find_from(v: &Vec<char>, c: char, pos: usize) -> (r: usize)
    requires
        pos <= v.len(),
    ensures
        r == next_index(v@, c, pos as int),
        pos <= r <= v.len(),
{
    proof {
        lemma_next_index(v@, c, pos as int);
    }
    let mut j = pos;
    while j < v.len() && v[j] != c
        invariant
            pos <= j <= v.len(),
            next_index(v@, c, j as int) == next_index(v@, c, pos as int),
        decreases v.len() - j,
    {
        j += 1;
    }
    j
}

// ---------------------------------------------------------------------------
// Comparisons
// ---------------------------------------------------------------------------

pub fn chars_eq(a: &Vec<char>, b: &Vec<char>) -> (r: bool)
    ensures
        r == (a@ == b@),
{
    if a.len() != b.len() {
        return false;
    }
    let mut i: usize = 0;
    while i < a.len()
        invariant
            i <= a.len() == b.len(),
            a@.take(i as int) == b@.take(i as int),
        decreases a.len() - i,
    {
        if a[i] != b[i] {
            assert(a@[i as int] != b@[i as int]);
            return false;
        }
        assert(a@.take(i + 1) =~= a@.take(i as int).push(a@[i as int]));
        assert(b@.take(i + 1) =~= b@.take(i as int).push(b@[i as int]));
        i += 1;
    }
    assert(a@ =~= a@.take(i as int));
    assert(b@ =~= b@.take(i as int));
    true
}

pub open spec fn starts_with(s: Seq<char>, p: Seq<char>) -> bool {
    p.len() <= s.len() && s.take(p.len() as int) == p
}

pub open spec fn ends_with(s: Seq<char>, p: Seq<char>) -> bool {
    p.len() <= s.len() && s.skip(s.len() - p.len()) == p
}

/// Whether `v[at..]` starts with `p`.
pub fn starts_with_at(v: &Vec<char>, at: usize, p: &Vec<char>) -> (r: bool)
    requires
        at <= v.len(),
    ensures
        r == starts_with(v@.skip(at as int), p@),
{
    if p.len() > v.len() - at {
        return false;
    }
    let mut i: usize = 0;
    while i < p.len()
        invariant
            at <= v.len(),
            p.len() <= v.len() - at,
            i <= p.len(),
            forall|k: int| 0 <= k < i ==> v@[at + k] == p@[k],
        decreases p.len() - i,
    {
        if v[at + i] != p[i] {
            assert(v@.skip(at as int).take(p.len() as int)[i as int] != p@[i as int]);
            return false;
        }
        i += 1;
    }
    assert(v@.skip(at as int).take(p.len() as int) =~= p@);
    true
}

pub fn vec_starts_with(v: &Vec<char>, p: &Vec<char>) -> (r: bool)
    ensures
        r == starts_with(v@, p@),
{
    assert(v@.skip(0) =~= v@);
    starts_with_at(v, 0, p)
}

pub fn vec_ends_with(v: &Vec<char>, p: &Vec<char>) -> (r: bool)
    ensures
        r == ends_with(v@, p@),
{
    if p.len() > v.len() {
        return false;
    }
    let r = starts_with_at(v, v.len() - p.len(), p);
    assert(v@.skip(v.len() - p.len()).take(p.len() as int) =~= v@.skip(v.len() - p.len()));
    r
}

// ---------------------------------------------------------------------------
// Lines (`str::lines`)
// ---------------------------------------------------------------------------

pub open spec fn strip_cr(l: Seq<char>) -> Seq<char> {
    if l.len() > 0 && l.last() == '\r' {
        l.drop_last()
    } else {
        l
    }
}

/// Lines of `s[pos..]`, where `cur` is the part of the current line read so far:
/// a line ends at `'\n'` (a `'\r'` just before it is dropped) or at the end of
/// the text; text that ends with `'\n'` has no trailing empty line.
pub open spec fn lines_acc(s: Seq<char>, pos: int, cur: Seq<char>) -> Seq<Seq<char>>
    decreases s.len() - pos,
{
    if pos >= s.len() {
        if cur.len() == 0 {
            seq![]
        } else {
            seq![cur]
        }
    } else if s[pos] == '\n' {
        seq![strip_cr(cur)] + lines_acc(s, pos + 1, seq![])
    } else {
        lines_acc(s, pos + 1, cur.push(s[pos]))
    }
}

pub open spec fn lines(s: Seq<char>) -> Seq<Seq<char>> {
    lines_acc(s, 0, seq![])
}

fn strip_cr_vec(v: Vec<char>) -> (r: Vec<char>)
    ensures
        r@ == strip_cr(v@),
{
    let mut v = v;
    if v.len() > 0 && v[v.len() - 1] == '\r' {
        v.pop();
    }
    v
}

/// The views of a sequence of character vectors.
pub open spec fn views(v: Seq<Vec<char>>) -> Seq<Seq<char>> {
    Seq::new(v.len(), |i: int| v[i]@)
}

pub fn lines_of(s: &Vec<char>) -> (r: Vec<Vec<char>>)
    ensures
        views(r@) == lines(s@),
{
    let mut out: Vec<Vec<char>> = Vec::new();
    let mut cur: Vec<char> = Vec::new();
    let mut i: usize = 0;
    while i < s.len()
        invariant
            i <= s.len(),
            views(out@) + lines_acc(s@, i as int, cur@) == lines(s@),
        decreases s.len() - i,
    {
        if s[i] == '\n' {
            let line = strip_cr_vec(cur);
            let ghost old_out = views(out@);
            out.push(line);
            assert(views(out@) =~= old_out.push(strip_cr(cur@)));
            assert(old_out + lines_acc(s@, i as int, cur@) =~= views(out@) + lines_acc(
                s@,
                i + 1,
                seq![],
            ));
            cur = Vec::new();
            assert(cur@ =~= seq![]);
        } else {
            let ghost old_cur = cur@;
            cur.push(s[i]);
        }
        i += 1;
    }
    if cur.len() > 0 {
        let ghost old_out = views(out@);
        let ghost c = cur@;
        out.push(cur);
        assert(views(out@) =~= old_out.push(c));
        assert(old_out + seq![c] =~= old_out.push(c));
    } else {
        assert(views(out@) + seq![] =~= views(out@));
    }
    out
}

// ---------------------------------------------------------------------------
// Joining
// ---------------------------------------------------------------------------

/// `ls` joined with `sep` between consecutive items (`[&str]::join`).
pub open spec fn join_with(ls: Seq<Seq<char>>, sep: Seq<char>) -> Seq<char>
    decreases ls.len(),
{
    if ls.len() == 0 {
        seq![]
    } else if ls.len() == 1 {
        ls[0]
    } else {
        join_with(ls.drop_last(), sep) + sep + ls.last()
    }
}

pub open spec fn str_views(v: Seq<String>) -> Seq<Seq<char>> {
    Seq::new(v.len(), |i: int| v[i]@)
}

/// The strings of `v` joined with `sep`.
pub fn join_strings(v: &Vec<String>, sep: &str) -> (r: String)
    ensures
        r@ == join_with(str_views(v@), sep@),
{
    let mut out = String::new();
    let mut i: usize = 0;
    while i < v.len()
        invariant
            i <= v.len(),
            out@ == join_with(str_views(v@).take(i as int), sep@),
        decreases v.len() - i,
    {
        let ghost sub = str_views(v@).take(i + 1);
        assert(sub.drop_last() =~= str_views(v@).take(i as int));
        assert(sub.last() == v@[i as int]@);
        if i > 0 {
            out.append(sep);
        } else {
            assert(sub =~= seq![v@[i as int]@]);
            assert(out@ =~= seq![]);
        }
        let ghost o1 = out@;
        out.append(v[i].as_str());
        i += 1;
    }
    assert(str_views(v@).take(i as int) =~= str_views(v@));
    out
}

// ---------------------------------------------------------------------------
// Decimal rendering
// ---------------------------------------------------------------------------

pub open spec fn digit_char(d: nat) -> char {
    if d == 0 {
        '0'
    } else if d == 1 {
        '1'
    } else if d == 2 {
        '2'
    } else if d == 3 {
        '3'
    } else if d == 4 {
        '4'
    } else if d == 5 {
        '5'
    } else if d == 6 {
        '6'
    } else if d == 7 {
        '7'
    } else if d == 8 {
        '8'
    } else {
        '9'
    }
}

/// Decimal digits of `n`, most significant first, without leading zeros.
pub open spec fn decimal(n: nat) -> Seq<char>
    decreases n,
{
    if n < 10 {
        seq![digit_char(n)]
    } else {
        decimal(n / 10).push(digit_char(n % 10))
    }
}

fn digit(d: usize) -> (c: char)
    requires
        d < 10,
    ensures
        c == digit_char(d as nat),
{
    if d == 0 {
        '0'
    } else if d == 1 {
        '1'
    } else if d == 2 {
        '2'
    } else if d == 3 {
        '3'
    } else if d == 4 {
        '4'
    } else if d == 5 {
        '5'
    } else if d == 6 {
        '6'
    } else if d == 7 {
        '7'
    } else if d == 8 {
        '8'
    } else {
        '9'
    }
}

pub fn decimal_chars(n: usize) -> (r: Vec<char>)
    ensures
        r@ == decimal(n as nat),
    decreases n,
{
    if n < 10 {
        let mut r: Vec<char> = Vec::new();
        r.push(digit(n));
        assert(r@ =~= seq![digit_char(n as nat)]);
        r
    } else {
        let mut r = decimal_chars(n / 10);
        r.push(digit(n % 10));
        r
    }
}

/// `n` rendered in decimal, as `format!("{}", n)` does.
pub fn fmt_usize(n: usize) -> (s: String)
    ensures
        s@ == decimal(n as nat),
{
    string_of(&decimal_chars(n))
}

} // verus!
