//! Prompts for drafting and revising a document, and the content angles that
//! give each draft its own approach.
use vstd::prelude::*;
use crate::content::{sections_prompt_spec, Spec};
use crate::text::{decimal, fmt_usize, str_views};

verus! {

/// System prompt for drafting and revising.
pub fn system_prompt() -> (r: &'static str)
    ensures
        r@ == system_prompt_text(),
{
    "You are an expert SEO copywriter. You write blog posts and \
landing page copy that precisely match search intent, naturally weave in keywords \
(without over-optimization), and carry E-E-A-T signals (first-person experience, \
concrete figures, sources). You do not exaggerate unverified figures or claims of \
effectiveness, and you attach source links to claims that have supporting evidence."
}

pub open spec fn system_prompt_text() -> Seq<char> {
    "You are an expert SEO copywriter. You write blog posts and \
landing page copy that precisely match search intent, naturally weave in keywords \
(without over-optimization), and carry E-E-A-T signals (first-person experience, \
concrete figures, sources). You do not exaggerate unverified figures or claims of \
effectiveness, and you attach source links to claims that have supporting evidence."@
}

/// The output-format section of the drafting prompt.
pub open spec fn output_format_text(s: Spec) -> Seq<char> {
    "## Output format (must follow)\n\
     - Put front matter at the very top of the document:\n\
       ```\n\
       ---\n\
       title: \"a title between "@ + decimal(s.title_min as nat) + "~"@ + decimal(
        s.title_max as nat,
    ) + " characters\"\n\
       meta_description: \"a meta description between "@ + decimal(s.meta_min as nat) + "~"@
        + decimal(s.meta_max as nat) + " characters\"\n\
       ---\n\
       ```\n\
     - Markdown body below that. Use exactly one `# H1`, and don't skip heading levels from H2 to H6 (no jumping straight from H1 to H3).\n\
     - Place the target keyword naturally at least once each in the title, the H1, and within the first 100 characters of the intro.\n\
     - If you use images, use the `![alt text](url)` format and always fill in the alt text (no empty alt text).\n\
     - Place "@ + decimal(s.internal_links_min as nat) + "~"@ + decimal(
        s.internal_links_max as nat,
    ) + " internal links (in `[text](/path)` form).\n\
     - Place at least "@ + decimal(s.min_citations as nat)
        + " external authoritative links for sourcing/citation purposes (in `[text](https://...)` form, from official bodies, research, or primary sources) — this is an E-E-A-T signal, and without it the related scoring item is capped at 60 points.\n\
     - Output only the document body, with no intro, explanation, or meta-commentary.\n\
     - If a fact is uncertain, don't make it up — replace it with 'estimated' or a source link.\n"@
}

/// Content type, context and keyword section shared by the prompts.
pub open spec fn prompt_head(s: Spec) -> Seq<char> {
    "## Content type: "@ + s.name@ + "\n"@ + s.context@ + "\n\n"@ + "## Target keyword\n"@
        + s.keyword@ + "\n\n"@
}

pub open spec fn angle_part(angle: Seq<char>) -> Seq<char> {
    if angle.len() > 0 {
        "## Content angle for this draft\n"@ + angle + "\n\n"@
    } else {
        seq![]
    }
}

pub open spec fn draft_middle(s: Spec, brief: Seq<char>, rubric: Seq<char>) -> Seq<char> {
    "## Content brief (source material)\n"@ + brief + "\n\n"@ + "## Recommended outline (H2+)\n"@
        + sections_prompt_spec(s) + "\n\n"@
        + "## Scoring criteria (keep these in mind while writing)\n"@ + rubric + "\n\n"@
}

/// The drafting prompt. `rubric` is the scoring-criteria text, which states
/// each criterion's weight as a percentage.
pub open spec fn build_prompt_spec(s: Spec, brief: Seq<char>, angle: Seq<char>, rubric: Seq<char>) -> Seq<
    char,
> {
    "# Task\nWrite an SEO content draft according to the conditions below.\n\n"@ + prompt_head(s)
        + angle_part(angle) + draft_middle(s, brief, rubric) + output_format_text(s)
}

pub fn prompt_head_string(spec: &Spec) -> (r: String)
    ensures
        r@ == prompt_head(*spec),
{
    let mut p = String::new();
    p.append("## Content type: ");
    p.append(spec.name.as_str());
    p.append("\n");
    p.append(spec.context.as_str());
    p.append("\n\n");
    p.append("## Target keyword\n");
    p.append(spec.keyword.as_str());
    p.append("\n\n");
    p
}

fn angle_part_string(angle: &str) -> (r: String)
    ensures
        r@ == angle_part(angle@),
{
    let mut p = String::new();
    if !angle.is_empty() {
        p.append("## Content angle for this draft\n");
        p.append(angle);
        p.append("\n\n");
    }
    p
}

fn draft_middle_string(spec: &Spec, brief: &str, rubric: &str) -> (r: String)
    ensures
        r@ == draft_middle(*spec, brief@, rubric@),
{
    let mut p = String::new();
    p.append("## Content brief (source material)\n");
    p.append(brief);
    p.append("\n\n");
    p.append("## Recommended outline (H2+)\n");
    p.append(spec.sections_prompt().as_str());
    p.append("\n\n");
    p.append("## Scoring criteria (keep these in mind while writing)\n");
    p.append(rubric);
    p.append("\n\n");
    p
}

fn output_format_string(spec: &Spec) -> (r: String)
    ensures
        r@ == output_format_text(*spec),
{
    let mut p = String::new();
    p.append(
        "## Output format (must follow)\n\
         - Put front matter at the very top of the document:\n\
           ```\n\
           ---\n\
           title: \"a title between ",
    );
    p.append(fmt_usize(spec.title_min).as_str());
    p.append("~");
    p.append(fmt_usize(spec.title_max).as_str());
    p.append(
        " characters\"\n\
           meta_description: \"a meta description between ",
    );
    p.append(fmt_usize(spec.meta_min).as_str());
    p.append("~");
    p.append(fmt_usize(spec.meta_max).as_str());
    p.append(
        " characters\"\n\
           ---\n\
           ```\n\
         - Markdown body below that. Use exactly one `# H1`, and don't skip heading levels from H2 to H6 (no jumping straight from H1 to H3).\n\
         - Place the target keyword naturally at least once each in the title, the H1, and within the first 100 characters of the intro.\n\
         - If you use images, use the `![alt text](url)` format and always fill in the alt text (no empty alt text).\n\
         - Place ",
    );
    p.append(fmt_usize(spec.internal_links_min).as_str());
    p.append("~");
    p.append(fmt_usize(spec.internal_links_max).as_str());
    p.append(
        " internal links (in `[text](/path)` form).\n\
         - Place at least ",
    );
    p.append(fmt_usize(spec.min_citations).as_str());
    p.append(
        " external authoritative links for sourcing/citation purposes (in `[text](https://...)` form, from official bodies, research, or primary sources) — this is an E-E-A-T signal, and without it the related scoring item is capped at 60 points.\n\
         - Output only the document body, with no intro, explanation, or meta-commentary.\n\
         - If a fact is uncertain, don't make it up — replace it with 'estimated' or a source link.\n",
    );
    p
}

/// Prompt for drafting a document from a brief, with a content angle when one is given.
pub fn build_prompt(spec: &Spec, brief: &str, angle: &str, rubric: &str) -> (r: String)
    ensures
        r@ == build_prompt_spec(*spec, brief@, angle@, rubric@),
{
    let mut p = String::new();
    p.append("# Task\nWrite an SEO content draft according to the conditions below.\n\n");
    p.append(prompt_head_string(spec).as_str());
    p.append(angle_part_string(angle).as_str());
    p.append(draft_middle_string(spec, brief, rubric).as_str());
    p.append(output_format_string(spec).as_str());
    p
}

pub open spec fn weak_part(weak: Seq<char>) -> Seq<char> {
    if weak.len() > 0 {
        "## Items with especially low scores\n"@ + weak + "\n\n"@
    } else {
        seq![]
    }
}

pub open spec fn revise_middle(brief: Seq<char>, prev_doc: Seq<char>, feedback: Seq<char>) -> Seq<
    char,
> {
    "## Content brief (source material)\n"@ + brief + "\n\n"@ + "## Current draft\n"@ + prev_doc
        + "\n\n"@ + "## Review feedback (must be addressed)\n"@ + feedback + "\n\n"@
}

pub open spec fn revise_rules_text() -> Seq<char> {
    "## Output rules\n\
     - Output the entire improved document (including front matter) as markdown. No change summaries or meta-commentary.\n\
     - Keep following the rules for front matter title/meta_description character-count ranges, exactly one H1, heading hierarchy, keyword placement, alt text, \
       and internal/source link counts.\n\
     - Keep the parts that are well-written, and substantively strengthen only the parts that were flagged.\n\
     - Don't fabricate new unsupported figures. If you can't back up a claim, remove it or scale it back to 'estimated'.\n\
     - Don't respond by padding the length. Keep the overall length within ±15% of the current draft, improving by replacing weak sentences.\n"@
}

/// The revision prompt: the current draft and the review feedback, with the
/// weakest criteria when there are any.
pub open spec fn build_revise_prompt_spec(
    s: Spec,
    brief: Seq<char>,
    prev_doc: Seq<char>,
    feedback: Seq<char>,
    weak: Seq<char>,
    rubric: Seq<char>,
) -> Seq<char> {
    "# Task\nImprove the SEO content draft below according to the review feedback and output the entire revised document again.\n\n"@
        + prompt_head(s) + revise_middle(brief, prev_doc, feedback) + weak_part(weak)
        + "## Scoring criteria\n"@ + rubric + "\n\n"@ + revise_rules_text()
}

fn revise_middle_string(brief: &str, prev_doc: &str, feedback: &str) -> (r: String)
    ensures
        r@ == revise_middle(brief@, prev_doc@, feedback@),
{
    let mut p = String::new();
    p.append("## Content brief (source material)\n");
    p.append(brief);
    p.append("\n\n");
    p.append("## Current draft\n");
    p.append(prev_doc);
    p.append("\n\n");
    p.append("## Review feedback (must be addressed)\n");
    p.append(feedback);
    p.append("\n\n");
    p
}

fn weak_part_string(weak: &str) -> (r: String)
    ensures
        r@ == weak_part(weak@),
{
    let mut p = String::new();
    if !weak.is_empty() {
        p.append("## Items with especially low scores\n");
        p.append(weak);
        p.append("\n\n");
    }
    p
}

/// Prompt for revising a draft against review feedback.
pub fn build_revise_prompt(
    spec: &Spec,
    brief: &str,
    prev_doc: &str,
    feedback: &str,
    weak: &str,
    rubric: &str,
) -> (r: String)
    ensures
        r@ == build_revise_prompt_spec(*spec, brief@, prev_doc@, feedback@, weak@, rubric@),
{
    let mut p = String::new();
    p.append(
        "# Task\nImprove the SEO content draft below according to the review feedback and output the entire revised document again.\n\n",
    );
    p.append(prompt_head_string(spec).as_str());
    p.append(revise_middle_string(brief, prev_doc, feedback).as_str());
    p.append(weak_part_string(weak).as_str());
    p.append("## Scoring criteria\n");
    p.append(rubric);
    p.append("\n\n");
    p.append(
        "## Output rules\n\
         - Output the entire improved document (including front matter) as markdown. No change summaries or meta-commentary.\n\
         - Keep following the rules for front matter title/meta_description character-count ranges, exactly one H1, heading hierarchy, keyword placement, alt text, \
           and internal/source link counts.\n\
         - Keep the parts that are well-written, and substantively strengthen only the parts that were flagged.\n\
         - Don't fabricate new unsupported figures. If you can't back up a claim, remove it or scale it back to 'estimated'.\n\
         - Don't respond by padding the length. Keep the overall length within ±15% of the current draft, improving by replacing weak sentences.\n",
    );
    p
}

/// The angles used when the specification names none.
pub open spec fn default_angles() -> Seq<Seq<char>> {
    seq![
        "Foreground the execution steps in a step-by-step how-to guide format."@,
        "Make it easy to skim by listing comparison items in a listicle format."@,
        "Foreground the selection criteria in a comparison/alternatives (vs) format."@,
        "Foreground resolving specific questions in an FAQ structure."@,
        "Foreground credibility with real case studies and data."@,
        "Structure it around concept explanations that even beginners can understand."@,
    ]
}

/// The angle pool: the specification's angles, or the defaults.
pub open spec fn angle_pool(s: Spec) -> Seq<Seq<char>> {
    if s.angles.len() == 0 {
        default_angles()
    } else {
        str_views(s.angles@)
    }
}

fn default_angle_strings() -> (r: Vec<String>)
    ensures
        str_views(r@) == default_angles(),
{
    let mut v: Vec<String> = Vec::new();
    let mut s0 = String::new();
    s0.append("Foreground the execution steps in a step-by-step how-to guide format.");
    v.push(s0);
    let mut s1 = String::new();
    s1.append("Make it easy to skim by listing comparison items in a listicle format.");
    v.push(s1);
    let mut s2 = String::new();
    s2.append("Foreground the selection criteria in a comparison/alternatives (vs) format.");
    v.push(s2);
    let mut s3 = String::new();
    s3.append("Foreground resolving specific questions in an FAQ structure.");
    v.push(s3);
    let mut s4 = String::new();
    s4.append("Foreground credibility with real case studies and data.");
    v.push(s4);
    let mut s5 = String::new();
    s5.append("Structure it around concept explanations that even beginners can understand.");
    v.push(s5);
    assert(str_views(v@) =~= default_angles());
    v
}

/// `n` angles cycling through the angle pool in order.
pub open spec fn angles_spec(s: Spec, n: nat) -> Seq<Seq<char>> {
    Seq::new(n, |i: int| angle_pool(s)[i % (angle_pool(s).len() as int)])
}

/// `n` angles for `n` drafts; see `angles_spec`.
pub fn angles_for(spec: &Spec, n: usize) -> (r: Vec<String>)
    ensures
        str_views(r@) == angles_spec(*spec, n as nat),
{
    let pool = if spec.angles.len() == 0 {
        default_angle_strings()
    } else {
        spec.angles.clone()
    };
    proof {
        if spec.angles.len() != 0 {
            assert(str_views(pool@) =~= str_views(spec.angles@));
        }
    }
    assert(str_views(pool@) == angle_pool(*spec));
    let mut out: Vec<String> = Vec::new();
    let mut i: usize = 0;
    while i < n
        invariant
            i <= n,
            out.len() == i,
            pool.len() > 0,
            str_views(pool@) == angle_pool(*spec),
            forall|k: int| 0 <= k < i ==> #[trigger] out@[k]@ == angle_pool(*spec)[k % (angle_pool(*spec).len() as int)],
        decreases n - i,
    {
        let a = pool[i % pool.len()].clone();
        out.push(a);
        i += 1;
    }
    assert(str_views(out@) =~= angles_spec(*spec, n as nat));
    out
}

/// There are always angles to draw from, and angles repeat with the period of
/// the pool: drafts beyond the pool's size reuse its angles in the same order.
pub proof fn law_angles_cycle(s: Spec, n: nat, i: int)
    requires
        0 <= i,
        i + angle_pool(s).len() < n,
    ensures
        angle_pool(s).len() > 0,
        angles_spec(s, n)[i] == angles_spec(s, n)[i + angle_pool(s).len()],
{
    let p = angle_pool(s).len() as int;
    assert(p > 0);
    assert((i + p) % p == i % p) by {
        vstd::arithmetic::div_mod::lemma_mod_add_multiples_vanish(i, p);
    }
}

} // verus!
