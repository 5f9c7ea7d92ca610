//! The judging side of scoring that is decided without arithmetic on scores:
//! the judge prompt and lenses, the revision feedback, and the merged list of
//! improvement instructions.
use vstd::prelude::*;
use crate::content::{bands_prompt_spec, Criterion, Spec};
use crate::generate::{prompt_head, prompt_head_string};
use crate::text::{chars_of, str_views, trim, trim_vec, string_of};

verus! {

pub open spec fn judge_system_text() -> Seq<char> {
    "You are an SEO content judge well-versed in Google's Quality Rater Guidelines (E-E-A-T). \
The document's author is unknown; do not guess at authorship. \
Flowery language unrelated to search intent, unsupported figures, and excessive keyword repetition (keyword stuffing) are grounds for deduction. \
Do not grade generously — back every score with a direct quotation from the document."@
}

/// System prompt for judges.
pub fn judge_system() -> (r: &'static str)
    ensures
        r@ == judge_system_text(),
{
    "You are an SEO content judge well-versed in Google's Quality Rater Guidelines (E-E-A-T). \
The document's author is unknown; do not guess at authorship. \
Flowery language unrelated to search intent, unsupported figures, and excessive keyword repetition (keyword stuffing) are grounds for deduction. \
Do not grade generously — back every score with a direct quotation from the document."
}

/// Judging lenses, rotated per scoring round.
pub open spec fn lenses() -> Seq<Seq<char>> {
    seq![
        "Weighs search-intent alignment and overall completeness in balance."@,
        "Scrutinizes keyword naturalness and over-optimization (stuffing) especially strictly."@,
        "Scrutinizes E-E-A-T (Experience, Expertise, Authoritativeness, Trustworthiness) signals and source verifiability especially strictly."@,
        "Evaluates scan readability and structure as experienced in the first 3-10 seconds after clicking through from search results."@,
        "Evaluates differentiation and genuine information density versus top-ranking competing content."@,
        "Evaluates whether on-page elements like title, meta description, and headings actually contribute to click-through rate/comprehension."@,
    ]
}

/// The lens of scoring round `round` (rounds cycle through the lenses).
pub fn lens_for_round(round: usize) -> (r: &'static str)
    ensures
        r@ == lenses()[(round % 6) as int],
{
    let k = round % 6;
    if k == 0 {
        "Weighs search-intent alignment and overall completeness in balance."
    } else if k == 1 {
        "Scrutinizes keyword naturalness and over-optimization (stuffing) especially strictly."
    } else if k == 2 {
        "Scrutinizes E-E-A-T (Experience, Expertise, Authoritativeness, Trustworthiness) signals and source verifiability especially strictly."
    } else if k == 3 {
        "Evaluates scan readability and structure as experienced in the first 3-10 seconds after clicking through from search results."
    } else if k == 4 {
        "Evaluates differentiation and genuine information density versus top-ranking competing content."
    } else {
        "Evaluates whether on-page elements like title, meta description, and headings actually contribute to click-through rate/comprehension."
    }
}

pub open spec fn judge_procedure_text() -> Seq<char> {
    "## Procedure\n\
     1. Before scoring the document, write 3-6 'conditions content must meet to rank for this search intent' in winning_conditions.\n\
     2. Then score each criterion. For each item, quote the document verbatim in evidence, and explain in why_not_higher why it didn't receive a higher score.\n\
     3. If you cannot find supporting evidence to quote, that item cannot exceed 60 points.\n\
     4. Format/on-page elements such as title/meta character counts, heading hierarchy, link counts, and alt text are handled by separate automated checks — do not factor them into scoring; evaluate only content and persuasiveness.\n\n"@
}

/// The judge prompt: the specification, the judge's lens, the rubric text, the
/// score bands, the procedure (criteria written before reading the document)
/// and the document.
pub open spec fn build_judge_prompt_spec(s: Spec, doc: Seq<char>, lens: Seq<char>, rubric: Seq<char>) -> Seq<
    char,
> {
    "# Task\nJudge the submitted SEO content according to the scoring criteria.\n\n"@ + prompt_head(s)
        + "## This judge's lens\n"@ + lens + "\n\n"@
        + "## Scoring criteria (integer 0-100 for each item)\n"@ + rubric + "\n\n"@
        + "## Score band guidelines\n"@ + bands_prompt_spec(s) + "\n\n"@ + judge_procedure_text()
        + "## Document to score (front matter + markdown body)\n<document>\n"@ + doc
        + "\n</document>\n"@
}

pub fn build_judge_prompt(spec: &Spec, doc: &str, lens: &str, rubric: &str) -> (r: String)
    ensures
        r@ == build_judge_prompt_spec(*spec, doc@, lens@, rubric@),
{
    let mut p = String::new();
    p.append("# Task\nJudge the submitted SEO content according to the scoring criteria.\n\n");
    p.append(prompt_head_string(spec).as_str());
    p.append("## This judge's lens\n");
    p.append(lens);
    p.append("\n\n");
    p.append("## Scoring criteria (integer 0-100 for each item)\n");
    p.append(rubric);
    p.append("\n\n");
    p.append("## Score band guidelines\n");
    p.append(spec.bands_prompt().as_str());
    p.append("\n\n");
    p.append(
        "## Procedure\n\
         1. Before scoring the document, write 3-6 'conditions content must meet to rank for this search intent' in winning_conditions.\n\
         2. Then score each criterion. For each item, quote the document verbatim in evidence, and explain in why_not_higher why it didn't receive a higher score.\n\
         3. If you cannot find supporting evidence to quote, that item cannot exceed 60 points.\n\
         4. Format/on-page elements such as title/meta character counts, heading hierarchy, link counts, and alt text are handled by separate automated checks — do not factor them into scoring; evaluate only content and persuasiveness.\n\n",
    );
    p.append("## Document to score (front matter + markdown body)\n<document>\n");
    p.append(doc);
    p.append("\n</document>\n");
    p
}

// ---------------------------------------------------------------------------
// Feedback
// ---------------------------------------------------------------------------

/// Each item as a `- ` bullet line.
pub open spec fn bullets(items: Seq<Seq<char>>) -> Seq<char>
    decreases items.len(),
{
    if items.len() == 0 {
        seq![]
    } else {
        bullets(items.drop_last()) + "- "@ + items.last() + "\n"@
    }
}

/// Feedback for the revision prompt: the improvement instructions, then the
/// judges' comments when there are any. Scores are deliberately not included.
pub open spec fn feedback_spec(improvements: Seq<Seq<char>>, comments: Seq<Seq<char>>) -> Seq<char> {
    "[Revision instructions that must be applied]\n"@ + bullets(improvements) + if comments.len()
        > 0 {
        "\n[Judge's overall comments]\n"@ + bullets(comments)
    } else {
        seq![]
    }
}

pub(crate) fn bullets_string(items: &Vec<String>) -> (r: String)
    ensures
        r@ == bullets(str_views(items@)),
{
    let mut out = String::new();
    let mut i: usize = 0;
    while i < items.len()
        invariant
            i <= items.len(),
            out@ == bullets(str_views(items@).take(i as int)),
        decreases items.len() - i,
    {
        assert(str_views(items@).take(i + 1).drop_last() =~= str_views(items@).take(i as int));
        assert(str_views(items@).take(i + 1).last() == items@[i as int]@);
        out.append("- ");
        out.append(items[i].as_str());
        out.append("\n");
        i += 1;
    }
    assert(str_views(items@).take(i as int) =~= str_views(items@));
    out
}

/// Feedback text for a revision; see `feedback_spec`.
pub fn feedback_text(improvements: &Vec<String>, comments: &Vec<String>) -> (r: String)
    ensures
        r@ == feedback_spec(str_views(improvements@), str_views(comments@)),
{
    let mut out = String::new();
    out.append("[Revision instructions that must be applied]\n");
    out.append(bullets_string(improvements).as_str());
    if comments.len() > 0 {
        out.append("\n[Judge's overall comments]\n");
        out.append(bullets_string(comments).as_str());
    } else {
        assert(out@ =~= out@ + seq![]);
    }
    out
}

// ---------------------------------------------------------------------------
// Improvement instructions
// ---------------------------------------------------------------------------

/// `acc` followed by each of `items`, trimmed, that is non-empty and not
/// already present.
pub open spec fn merge_items(acc: Seq<Seq<char>>, items: Seq<Seq<char>>) -> Seq<Seq<char>>
    decreases items.len(),
{
    if items.len() == 0 {
        acc
    } else {
        let t = trim(items[0]);
        merge_items(
            if t.len() > 0 && !acc.contains(t) {
                acc.push(t)
            } else {
                acc
            },
            items.drop_first(),
        )
    }
}

/// All judges' instructions, in judge order.
pub open spec fn flatten(ls: Seq<Seq<Seq<char>>>) -> Seq<Seq<char>>
    decreases ls.len(),
{
    if ls.len() == 0 {
        seq![]
    } else {
        flatten(ls.drop_last()) + ls.last()
    }
}

pub open spec fn nested_views(v: Seq<Vec<String>>) -> Seq<Seq<Seq<char>>> {
    Seq::new(v.len(), |i: int| str_views(v[i]@))
}

pub(crate) fn contains_string(v: &Vec<String>, t: &String) -> (r: bool)
    ensures
        r == str_views(v@).contains(t@),
{
    let mut i: usize = 0;
    while i < v.len()
        invariant
            i <= v.len(),
            forall|k: int| 0 <= k < i ==> v@[k]@ != t@,
        decreases v.len() - i,
    {
        if v[i] == *t {
            assert(str_views(v@)[i as int] == t@);
            return true;
        }
        i += 1;
    }
    false
}

proof fn lemma_merge_step(acc: Seq<Seq<char>>, items: Seq<Seq<char>>, i: int)
    requires
        0 <= i < items.len(),
    ensures
        merge_items(acc, items.skip(i)) == merge_items(
            if trim(items[i]).len() > 0 && !acc.contains(trim(items[i])) {
                acc.push(trim(items[i]))
            } else {
                acc
            },
            items.skip(i + 1),
        ),
{
    assert(items.skip(i)[0] == items[i]);
    assert(items.skip(i).drop_first() =~= items.skip(i + 1));
}

/// The improvement instructions of a scored document: the format findings
/// first, then each judge's instructions in order, trimmed, leaving out blank
/// ones and ones already listed.
pub fn collect_improvements(format_issues: &Vec<String>, judge_improvements: &Vec<Vec<String>>) -> (r:
    Vec<String>)
    ensures
        str_views(r@) == merge_items(str_views(format_issues@), flatten(nested_views(judge_improvements@))),
{
    let mut items: Vec<String> = Vec::new();
    let mut j: usize = 0;
    while j < judge_improvements.len()
        invariant
            j <= judge_improvements.len(),
            str_views(items@) == flatten(nested_views(judge_improvements@).take(j as int)),
        decreases judge_improvements.len() - j,
    {
        let ghost prev = str_views(items@);
        let list = &judge_improvements[j];
        let mut k: usize = 0;
        while k < list.len()
            invariant
                k <= list.len(),
                str_views(items@) == prev + str_views(list@).take(k as int),
            decreases list.len() - k,
        {
            let ghost before = str_views(items@);
            let x = list[k].clone();
            items.push(x);
            assert(str_views(items@) =~= before.push(list@[k as int]@));
            assert(str_views(list@).take(k + 1) =~= str_views(list@).take(k as int).push(list@[k as int]@));
            k += 1;
        }
        assert(str_views(list@).take(k as int) =~= str_views(list@));
        assert(nested_views(judge_improvements@).take(j + 1).drop_last() =~= nested_views(
            judge_improvements@,
        ).take(j as int));
        assert(nested_views(judge_improvements@).take(j + 1).last() == str_views(list@));
        j += 1;
    }
    assert(nested_views(judge_improvements@).take(j as int) =~= nested_views(judge_improvements@));
    let mut out: Vec<String> = format_issues.clone();
    assert(str_views(out@) =~= str_views(format_issues@));
    let ghost all = str_views(items@);
    let mut i: usize = 0;
    assert(all.skip(0) =~= all);
    while i < items.len()
        invariant
            i <= items.len(),
            all == str_views(items@),
            merge_items(str_views(out@), all.skip(i as int)) == merge_items(
                str_views(format_issues@),
                all,
            ),
        decreases items.len() - i,
    {
        proof {
            lemma_merge_step(str_views(out@), all, i as int);
        }
        let tv = trim_vec(&chars_of(items[i].as_str()));
        let t = string_of(&tv);
        if tv.len() > 0 && !contains_string(&out, &t) {
            let ghost prev = str_views(out@);
            out.push(t);
            assert(str_views(out@) =~= prev.push(t@));
        }
        i += 1;
    }
    assert(all.skip(i as int) =~= seq![]);
    out
}

/// Every element of `s` after index `from` is non-empty and differs from all
/// elements before it.
pub open spec fn fresh_after(s: Seq<Seq<char>>, from: int) -> bool {
    forall|i: int|
        from <= i < s.len() ==> s[i].len() > 0 && forall|j: int| 0 <= j < i ==> s[j] != s[i]
}

/// Merging keeps the format findings as a prefix and never repeats an
/// instruction or adds a blank one.
pub proof fn law_merge_keeps_prefix_and_dedups(acc: Seq<Seq<char>>, items: Seq<Seq<char>>)
    ensures
        merge_items(acc, items).len() >= acc.len(),
        merge_items(acc, items).take(acc.len() as int) == acc,
        fresh_after(merge_items(acc, items), acc.len() as int),
    decreases items.len(),
{
    if items.len() > 0 {
        let t = trim(items[0]);
        let next = if t.len() > 0 && !acc.contains(t) {
            acc.push(t)
        } else {
            acc
        };
        law_merge_keeps_prefix_and_dedups(next, items.drop_first());
        let m = merge_items(next, items.drop_first());
        assert(m.take(acc.len() as int) =~= acc) by {
            assert(next.take(acc.len() as int) =~= acc);
            assert forall|k: int| 0 <= k < acc.len() implies m[k] == acc[k] by {
                assert(m.take(next.len() as int)[k] == next[k]);
            }
        }
        assert forall|i: int| acc.len() <= i < m.len() implies m[i].len() > 0 && forall|j: int|
            0 <= j < i ==> m[j] != m[i] by {
            if i >= next.len() {
            } else {
                assert(next.len() == acc.len() + 1 && i == acc.len());
                assert(m[i] == m.take(next.len() as int)[i]);
                assert(m[i] == t);
                assert forall|j: int| 0 <= j < i implies m[j] != m[i] by {
                    assert(m[j] == m.take(next.len() as int)[j]);
                    assert(m[j] == acc[j]);
                }
            }
        }
    } else {
        assert(acc.take(acc.len() as int) =~= acc);
    }
}


// ---------------------------------------------------------------------------
// Rounds and the citation cap
// ---------------------------------------------------------------------------

/// The number of scoring rounds a setting gives: at least one.
pub open spec fn round_count(rounds: usize) -> int {
    if rounds == 0 {
        1
    } else {
        rounds as int
    }
}

/// For each scoring round, the index of the judge model of the panel that
/// scores it: the panel is cycled through, round after round. There is at least
/// one round.
pub fn judge_rounds(rounds: usize, panel_len: usize) -> (r: Vec<usize>)
    requires
        panel_len > 0,
    ensures
        r.len() == round_count(rounds),
        forall|i: int| 0 <= i < r.len() ==> #[trigger] r[i] == i % (panel_len as int),
{
    let n: usize = if rounds == 0 {
        1
    } else {
        rounds
    };
    let mut out: Vec<usize> = Vec::new();
    let mut i: usize = 0;
    while i < n
        invariant
            i <= n,
            n == round_count(rounds),
            panel_len > 0,
            out.len() == i,
            forall|k: int| 0 <= k < i ==> #[trigger] out[k] == k % (panel_len as int),
        decreases n - i,
    {
        out.push(i % panel_len);
        i += 1;
    }
    out
}

/// The score a citation-requiring criterion is capped at when the document has
/// too few citation links.
pub const CITATION_CAP_POINTS: u32 = 60;

/// Whether criterion `c` falls under the citation cap for a document with
/// `citation_links` citation links: it requires citations and the document has
/// fewer than the specification's minimum. (The cap lowers only scores above it.)
pub fn citation_cap_applies(c: &Criterion, citation_links: usize, min_citations: usize) -> (r: bool)
    ensures
        r == (c.citation_required && citation_links < min_citations),
{
    c.citation_required && citation_links < min_citations
}

} // verus!
