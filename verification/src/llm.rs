//! Post-processing of model replies: removing a stray code fence around a
//! whole reply, pulling a JSON object out of a chatty reply, and shortening
//! text for messages.
use vstd::prelude::*;
use crate::checks::{find_sub, push_all};
use crate::text::{
    chars_of, lines, lines_of, start_index_by, string_of, subvec, trim, trim_start_by, trim_vec,
    views, CharClass,
};

verus! {

// ---------------------------------------------------------------------------
// Wrapping code fence
// ---------------------------------------------------------------------------

pub open spec fn is_ascii_alnum(c: char) -> bool {
    let u = c as u32;
    (0x30 <= u && u <= 0x39) || (0x41 <= u && u <= 0x5a) || (0x61 <= u && u <= 0x7a)
}

/// Length of the run of backticks at the start of `s`.
pub open spec fn backtick_run(s: Seq<char>) -> int {
    s.len() - trim_start_by(s, CharClass::Backtick).len()
}

/// `ls` joined with `'\n'` between consecutive lines.
pub open spec fn join_lines(ls: Seq<Seq<char>>) -> Seq<char>
    decreases ls.len(),
{
    if ls.len() == 0 {
        seq![]
    } else if ls.len() == 1 {
        ls[0]
    } else {
        join_lines(ls.drop_last()) + seq!['\n'] + ls.last()
    }
}

/// An opening fence line (already trimmed): three or more backticks, then an
/// optional ASCII alphanumeric language tag.
pub open spec fn is_open_fence(first: Seq<char>) -> bool {
    backtick_run(first) >= 3 && forall|i: int|
        backtick_run(first) <= i < first.len() ==> is_ascii_alnum(#[trigger] first[i])
}

/// A closing fence line (already trimmed) for an opener of `open_len` backticks:
/// backticks only, at least as many.
pub open spec fn is_close_fence(last: Seq<char>, open_len: int) -> bool {
    backtick_run(last) >= open_len && backtick_run(last) == last.len()
}

/// The reply without a fence that wraps all of it: when the trimmed reply's
/// first line opens a fence and its last line (a different line) closes it, the
/// lines in between joined by `'\n'`; otherwise the reply unchanged.
pub open spec fn strip_fence_spec(text: Seq<char>) -> Seq<char> {
    let ls = lines(trim(text));
    if ls.len() < 2 {
        text
    } else {
        let first = trim(ls[0]);
        let last = trim(ls.last());
        if is_open_fence(first) && is_close_fence(last, backtick_run(first)) {
            join_lines(ls.subrange(1, ls.len() - 1))
        } else {
            text
        }
    }
}

fn all_ascii_alnum_from(v: &Vec<char>, from: usize) -> (r: bool)
    requires
        from <= v.len(),
    ensures
        r == forall|i: int| from <= i < v.len() ==> is_ascii_alnum(#[trigger] v@[i]),
{
    let mut i = from;
    while i < v.len()
        invariant
            from <= i <= v.len(),
            forall|k: int| from <= k < i ==> is_ascii_alnum(#[trigger] v@[k]),
        decreases v.len() - i,
    {
        let u = v[i] as u32;
        if !((0x30 <= u && u <= 0x39) || (0x41 <= u && u <= 0x5a) || (0x61 <= u && u <= 0x7a)) {
            assert(!is_ascii_alnum(v@[i as int]));
            return false;
        }
        i += 1;
    }
    true
}

fn join_lines_vec(ls: &Vec<Vec<char>>, a: usize, b: usize) -> (r: Vec<char>)
    requires
        a <= b <= ls.len(),
    ensures
        r@ == join_lines(views(ls@).subrange(a as int, b as int)),
{
    let mut out: Vec<char> = Vec::new();
    let mut i = a;
    while i < b
        invariant
            a <= i <= b <= ls.len(),
            out@ == join_lines(views(ls@).subrange(a as int, i as int)),
        decreases b - i,
    {
        let ghost sub = views(ls@).subrange(a as int, i + 1);
        assert(sub.drop_last() =~= views(ls@).subrange(a as int, i as int));
        assert(sub.last() == ls@[i as int]@);
        if i > a {
            out.push('\n');
        } else {
            assert(sub =~= seq![ls@[i as int]@]);
            assert(out@ =~= seq![]);
        }
        let ghost o1 = out@;
        push_all(&mut out, &ls[i]);
        i += 1;
    }
    out
}

/// Removes a stray code fence (three or more backticks, optional language tag)
/// wrapping an entire reply; see `strip_fence_spec`. A fence that appears only
/// inside the content is left alone.
pub fn strip_wrapping_fence(text: &str) -> (r: String)
    ensures
        r@ == strip_fence_spec(text@),
{
    let v = chars_of(text);
    let t = trim_vec(&v);
    let ls = lines_of(&t);
    if ls.len() < 2 {
        return string_of(&v);
    }
    let first = trim_vec(&ls[0]);
    let open_len = start_index_by(&first, CharClass::Backtick);
    assert(first@.skip(open_len as int).len() == first.len() - open_len);
    let is_open = open_len >= 3 && all_ascii_alnum_from(&first, open_len);
    if !is_open {
        return string_of(&v);
    }
    let last = trim_vec(&ls[ls.len() - 1]);
    let close_len = start_index_by(&last, CharClass::Backtick);
    assert(last@.skip(close_len as int).len() == last.len() - close_len);
    if !(close_len >= open_len && close_len == last.len()) {
        return string_of(&v);
    }
    let body = join_lines_vec(&ls, 1, ls.len() - 1);
    string_of(&body)
}

// ---------------------------------------------------------------------------
// Truncation
// ---------------------------------------------------------------------------

/// `s` cut to its first `n` characters followed by `…` when it is longer than
/// `n` characters.
pub open spec fn truncate_spec(s: Seq<char>, n: int) -> Seq<char> {
    if s.len() <= n {
        s
    } else {
        s.take(n) + "…"@
    }
}

pub fn truncate(s: &str, n: usize) -> (r: String)
    ensures
        r@ == truncate_spec(s@, n as int),
{
    let v = chars_of(s);
    if v.len() <= n {
        return string_of(&v);
    }
    let mut r = string_of(&subvec(&v, 0, n));
    r.append("…");
    r
}

// ---------------------------------------------------------------------------
// JSON extraction
// ---------------------------------------------------------------------------

#[verifier::external_type_specification]
#[verifier::external_body]
pub struct ExJsonValue(serde_json::Value);

#[verifier::external_type_specification]
#[verifier::external_body]
pub struct ExJsonError(serde_json::Error);

/// Whether `serde_json` reads the text as one JSON value.
pub uninterp spec fn json_parses(s: Seq<char>) -> bool;

/// Calls `serde_json::from_str::<serde_json::Value>`. The contract claims only
/// that success is a fixed property of the text; which value is read, and the
/// JSON grammar itself, are not stated.
#[verifier::external_body]
fn parse_json(s: &str) -> (r: Result<serde_json::Value, serde_json::Error>)
    ensures
        r is Ok <==> json_parses(s@),
{
    serde_json::from_str::<serde_json::Value>(s)
}

/// Last index holding `c`, or -1.
pub open spec fn last_index(s: Seq<char>, c: char) -> int
    decreases s.len(),
{
    if s.len() == 0 {
        -1
    } else if s.last() == c {
        s.len() - 1
    } else {
        last_index(s.drop_last(), c)
    }
}

/// The text inside the first pair of triple backticks of `t` (a `json` tag after
/// the opening backticks dropped), trimmed; absent without such a pair.
pub open spec fn fenced_candidate(t: Seq<char>) -> Option<Seq<char>> {
    match find_sub(t, "```"@, 0) {
        None => None,
        Some(start) => {
            let after0 = t.skip(start + "```"@.len());
            let after = if after0.len() >= "json"@.len() && after0.take("json"@.len() as int)
                == "json"@ {
                after0.skip("json"@.len() as int)
            } else {
                after0
            };
            match find_sub(after, "```"@, 0) {
                None => None,
                Some(end) => Some(trim(after.take(end))),
            }
        },
    }
}

/// The text from the first `{` to the last `}` of `t`, when the first comes
/// before the last.
pub open spec fn braced_candidate(t: Seq<char>) -> Option<Seq<char>> {
    let s = crate::text::next_index(t, '{', 0);
    let e = last_index(t, '}');
    if s < t.len() && e >= 0 && s < e {
        Some(t.subrange(s, e + 1))
    } else {
        None
    }
}

pub open spec fn candidate_parses(c: Option<Seq<char>>) -> bool {
    match c {
        Some(x) => json_parses(x),
        None => false,
    }
}

/// A JSON object can be pulled out of `raw`: the trimmed reply itself, the
/// contents of its first fenced block, or its outermost braces parse.
pub open spec fn json_extractable(raw: Seq<char>) -> bool {
    let t = trim(raw);
    json_parses(t) || candidate_parses(fenced_candidate(t)) || candidate_parses(braced_candidate(t))
}

/// No JSON could be pulled out of a reply.
#[derive(Debug)]
pub struct JsonExtractError {
    /// The trimmed reply, cut to 300 characters.
    pub snippet: String,
}

impl JsonExtractError {
    pub fn message(&self) -> (r: String)
        ensures
            r@ == "Failed to extract JSON: "@ + self.snippet@,
    {
        let mut s = String::new();
        s.append("Failed to extract JSON: ");
        s.append(self.snippet.as_str());
        s
    }
}

fn literal_at(v: &Vec<char>, from: usize, lit: &Vec<char>) -> (r: Option<usize>)
    requires
        from <= v.len(),
    ensures
        match r {
            Some(k) => find_sub(v@.skip(from as int), lit@, 0) == Some(k - from) && from <= k
                && k + lit.len() <= v.len(),
            None => find_sub(v@.skip(from as int), lit@, 0) is None,
        },
{
    let w = subvec(v, from, v.len());
    assert(w@ =~= v@.skip(from as int));
    let mut i: usize = 0;
    while lit.len() <= w.len() && i <= w.len() - lit.len()
        invariant
            i <= w.len() + 1,
            from <= v.len(),
            w.len() == v.len() - from,
            w@ == v@.skip(from as int),
            find_sub(w@, lit@, i as int) == find_sub(w@, lit@, 0),
        decreases w.len() + 1 - i,
    {
        if crate::text::starts_with_at(&w, i, lit) {
            assert(w@.skip(i as int).take(lit.len() as int) =~= w@.subrange(i as int, i + lit.len()));
            return Some(from + i);
        }
        assert(w@.skip(i as int).take(lit.len() as int) =~= w@.subrange(i as int, i + lit.len()));
        if i == w.len() - lit.len() {
            assert(find_sub(w@, lit@, i + 1) is None);
            return None;
        }
        i += 1;
    }
    None
}

fn fenced_candidate_vec(t: &Vec<char>) -> (r: Option<Vec<char>>)
    ensures
        match r {
            Some(x) => fenced_candidate(t@) == Some(x@),
            None => fenced_candidate(t@) is None,
        },
{
    let ticks = chars_of("```");
    let json = chars_of("json");
    assert(t@.skip(0) =~= t@);
    let start = match literal_at(t, 0, &ticks) {
        Some(s) => s,
        None => return None,
    };
    let a0 = start + ticks.len();
    let after_start = if crate::text::starts_with_at(t, a0, &json) {
        a0 + json.len()
    } else {
        a0
    };
    let ghost after0 = t@.skip(a0 as int);
    proof {
        if after0.len() >= json@.len() && after0.take(json@.len() as int) == json@ {
            assert(t@.skip(after_start as int) =~= after0.skip(json@.len() as int));
        }
    }
    let end = match literal_at(t, after_start, &ticks) {
        Some(e) => e,
        None => return None,
    };
    let inner = subvec(t, after_start, end);
    assert(inner@ =~= t@.skip(after_start as int).take(end - after_start));
    Some(trim_vec(&inner))
}

pub(crate) fn last_index_vec(t: &Vec<char>, c: char) -> (r: Option<usize>)
    ensures
        match r {
            Some(k) => last_index(t@, c) == k && k < t.len(),
            None => last_index(t@, c) == -1,
        },
{
    let mut j = t.len();
    assert(t@.take(j as int) =~= t@);
    while j > 0
        invariant
            j <= t.len(),
            last_index(t@.take(j as int), c) == last_index(t@, c),
        decreases j,
    {
        if t[j - 1] == c {
            return Some(j - 1);
        }
        assert(t@.take(j as int).drop_last() =~= t@.take(j - 1));
        j -= 1;
    }
    None
}

fn braced_candidate_vec(t: &Vec<char>) -> (r: Option<Vec<char>>)
    ensures
        match r {
            Some(x) => braced_candidate(t@) == Some(x@),
            None => braced_candidate(t@) is None,
        },
{
    let s = crate::text::find_from(t, '{', 0);
    if s >= t.len() {
        return None;
    }
    match last_index_vec(t, '}') {
        Some(e) => {
            if s < e {
                Some(subvec(t, s, e + 1))
            } else {
                None
            }
        },
        None => None,
    }
}

/// Reads the JSON object of a model reply that may be wrapped in a code fence or
/// mixed with chatter: the trimmed reply itself, else the contents of its first
/// fenced block, else its outermost braces. Fails exactly when none of them
/// parses; the error carries the trimmed reply cut to 300 characters.
pub fn extract_json(raw: &str) -> (r: Result<serde_json::Value, JsonExtractError>)
    ensures
        r is Ok <==> json_extractable(raw@),
        r matches Err(e) ==> e.snippet@ == truncate_spec(trim(raw@), 300),
{
    let t = trim_vec(&chars_of(raw));
    let ts = string_of(&t);
    if let Ok(v) = parse_json(ts.as_str()) {
        return Ok(v);
    }
    if let Some(c) = fenced_candidate_vec(&t) {
        if let Ok(v) = parse_json(string_of(&c).as_str()) {
            return Ok(v);
        }
    }
    if let Some(c) = braced_candidate_vec(&t) {
        if let Ok(v) = parse_json(string_of(&c).as_str()) {
            return Ok(v);
        }
    }
    Err(JsonExtractError { snippet: truncate(ts.as_str(), 300) })
}


// ---------------------------------------------------------------------------
// Reading the command-line client's reply
// ---------------------------------------------------------------------------

/// What is read of the JSON envelope the model client prints for one call.
pub struct ReplyEnvelope {
    /// The `is_error` flag (false when it is absent or not a boolean).
    pub is_error: bool,
    /// The `subtype` field, when it is a string.
    pub subtype: Option<String>,
    /// The `result` field, when it is a string.
    pub result: Option<String>,
    /// The `structured_output` field, when present and not null.
    pub structured: Option<serde_json::Value>,
}

/// A usable reply: its text, and the schema-checked output when one was asked for.
pub struct Reply {
    pub text: String,
    pub structured: Option<serde_json::Value>,
}

/// Why a reply envelope is refused.
pub enum ReplyError {
    /// The client reported an error: its subtype (`?` when absent) and its
    /// result text (empty when absent) cut to 300 characters.
    ErrorResponse { subtype: String, detail: String },
    /// Neither text nor structured output came back.
    Empty,
}

impl ReplyError {
    pub fn message(&self) -> (r: String)
        ensures
            r@ == match self {
                ReplyError::ErrorResponse { subtype, detail } => "model client error response (subtype="@
                    + subtype@ + "): "@ + detail@,
                ReplyError::Empty => "Empty response"@,
            },
    {
        match self {
            ReplyError::ErrorResponse { subtype, detail } => {
                let mut s = String::new();
                s.append("model client error response (subtype=");
                s.append(subtype.as_str());
                s.append("): ");
                s.append(detail.as_str());
                s
            },
            ReplyError::Empty => {
                let mut s = String::new();
                s.append("Empty response");
                s
            },
        }
    }
}

/// The text of an optional string field, `dflt` when it is absent.
pub open spec fn text_or(o: Option<String>, dflt: Seq<char>) -> Seq<char> {
    match o {
        Some(t) => t@,
        None => dflt,
    }
}

fn string_or(o: &Option<String>, dflt: &str) -> (r: String)
    ensures
        r@ == text_or(*o, dflt@),
{
    match o {
        Some(t) => string_of(&chars_of(t.as_str())),
        None => string_of(&chars_of(dflt)),
    }
}

/// Reads one reply envelope: an error reported by the client is refused with
/// its subtype and shortened text; a reply whose text is blank and which has no
/// structured output is refused as empty; any other gives its text (empty when
/// absent) and its structured output.
pub fn interpret_reply(env: ReplyEnvelope) -> (r: Result<Reply, ReplyError>)
    ensures
        match r {
            Ok(rep) => !env.is_error && rep.text@ == text_or(env.result, seq![]) && rep.structured
                == env.structured && !(trim(rep.text@).len() == 0 && env.structured is None),
            Err(ReplyError::ErrorResponse { subtype, detail }) => env.is_error && subtype@
                == text_or(env.subtype, "?"@) && detail@ == truncate_spec(
                text_or(env.result, seq![]),
                300,
            ),
            Err(ReplyError::Empty) => !env.is_error && trim(text_or(env.result, seq![])).len() == 0
                && env.structured is None,
        },
{
    let text = string_or(&env.result, "");
    proof {
        reveal_strlit("");
    }
    if env.is_error {
        let subtype = string_or(&env.subtype, "?");
        let detail = truncate(text.as_str(), 300);
        return Err(ReplyError::ErrorResponse { subtype, detail });
    }
    let blank = trim_vec(&chars_of(text.as_str())).len() == 0;
    if blank && env.structured.is_none() {
        return Err(ReplyError::Empty);
    }
    Ok(Reply { text, structured: env.structured })
}

/// The JSON answer of a reply: its structured output when there is one, else
/// the JSON pulled out of its text as `extract_json` does.
pub fn reply_json(rep: Reply) -> (r: Result<serde_json::Value, JsonExtractError>)
    ensures
        rep.structured is Some ==> r == Ok::<serde_json::Value, JsonExtractError>(
            rep.structured->0,
        ),
        rep.structured is None ==> (r is Ok <==> json_extractable(rep.text@)),
        rep.structured is None ==> (r matches Err(e) ==> e.snippet@ == truncate_spec(
            trim(rep.text@),
            300,
        )),
{
    match rep.structured {
        Some(v) => Ok(v),
        None => extract_json(rep.text.as_str()),
    }
}

/// After failed attempt number `attempt` (counted from 0), whether another
/// attempt is made when `retries` retries are allowed: a call is tried at most
/// `retries + 1` times.
pub fn retry_after_failure(attempt: u32, retries: u32) -> (r: bool)
    ensures
        r == (attempt < retries),
{
    attempt < retries
}

} // verus!
