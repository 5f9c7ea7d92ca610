//! The markdown reports: the ranking report of a scoring run and the report of
//! an improvement loop. Scores arrive already rendered (the caller rounds them);
//! counts are rendered here.
use vstd::prelude::*;
use crate::checks::Metrics;
use crate::content::Spec;
use crate::score::{bullets, bullets_string, contains_string};
use crate::text::{decimal, fmt_usize, join_strings, join_with, str_views, trim, trim_vec, chars_of};

verus! {

/// One criterion's cell of the ranking table.
pub struct ScoreCell {
    /// The aggregated score, rendered without decimals.
    pub score: String,
    /// Half the spread of the judges' scores, rendered, when the spread is above 0.
    pub half_spread: Option<String>,
    /// The citation cap lowered this score.
    pub capped: bool,
}

/// A scored document as the reports show it.
pub struct ScoreLine {
    pub label: String,
    /// The total, rendered with one decimal.
    pub total: String,
    /// One cell per criterion of the specification, in criterion order.
    pub cells: Vec<ScoreCell>,
    pub metrics: Metrics,
    /// Flesch reading ease (no decimals) and grade (one decimal), when computed.
    pub flesch: Option<(String, String)>,
    /// The Korean readability heuristic (one decimal), when computed.
    pub korean: Option<String>,
    /// Ids of the criteria the citation cap lowered.
    pub citation_capped: Vec<String>,
    pub comments: Vec<String>,
    pub format_issues: Vec<String>,
    pub improvements: Vec<String>,
}

// ---------------------------------------------------------------------------
// Heading lines
// ---------------------------------------------------------------------------

/// The opening lines of both reports: the title, the keyword and, when given,
/// the scoring basis.
pub open spec fn head_spec(title: Seq<char>, s: Spec) -> Seq<char> {
    title + s.name@ + "\n\n"@ + "> Target keyword: "@ + s.keyword@ + "\n\n"@ + if s.scoring_source@.len()
        > 0 {
        "> Scoring basis: "@ + s.scoring_source@ + "\n\n"@
    } else {
        seq![]
    }
}

fn head_string(title: &str, s: &Spec) -> (r: String)
    ensures
        r@ == head_spec(title@, *s),
{
    let mut out = String::new();
    out.append(title);
    out.append(s.name.as_str());
    out.append("\n\n");
    out.append("> Target keyword: ");
    out.append(s.keyword.as_str());
    out.append("\n\n");
    if s.scoring_source.as_str().unicode_len() > 0 {
        out.append("> Scoring basis: ");
        out.append(s.scoring_source.as_str());
        out.append("\n\n");
    } else {
        assert(out@ =~= out@ + seq![]);
    }
    out
}

/// The models line shows `-` when no model name is known.
pub open spec fn models_text(joined: Seq<char>) -> Seq<char> {
    if joined.len() == 0 {
        "-"@
    } else {
        joined
    }
}

/// The header of the ranking report: the opening lines, then how many documents
/// were scored, in how many rounds, by which models.
pub open spec fn report_header_spec(s: Spec, n_docs: nat, rounds: nat, models: Seq<Seq<char>>) -> Seq<char> {
    head_spec("# Scoring Report — "@, s) + decimal(n_docs) + " documents · "@ + decimal(rounds)
        + " scoring round(s) per document · Scoring model(s): "@ + models_text(
        join_with(models, ", "@),
    ) + "\n\n"@
}

fn report_header(s: &Spec, n_docs: usize, rounds: usize, models: &Vec<String>) -> (r: String)
    ensures
        r@ == report_header_spec(*s, n_docs as nat, rounds as nat, str_views(models@)),
{
    let mut out = head_string("# Scoring Report — ", s);
    out.append(fmt_usize(n_docs).as_str());
    out.append(" documents · ");
    out.append(fmt_usize(rounds).as_str());
    out.append(" scoring round(s) per document · Scoring model(s): ");
    let joined = join_strings(models, ", ");
    if joined.as_str().unicode_len() == 0 {
        out.append("-");
    } else {
        out.append(joined.as_str());
    }
    out.append("\n\n");
    out
}

// ---------------------------------------------------------------------------
// Ranking table
// ---------------------------------------------------------------------------

/// The criterion columns of the table head.
pub open spec fn criterion_columns(names: Seq<Seq<char>>) -> Seq<char>
    decreases names.len(),
{
    if names.len() == 0 {
        seq![]
    } else {
        criterion_columns(names.drop_last()) + " "@ + names.last() + " |"@
    }
}

/// `n` separator cells.
pub open spec fn separator_cells(n: nat) -> Seq<char>
    decreases n,
{
    if n == 0 {
        seq![]
    } else {
        separator_cells((n - 1) as nat) + "---|"@
    }
}

pub open spec fn criterion_names(s: Spec) -> Seq<Seq<char>> {
    Seq::new(s.criteria@.len(), |i: int| s.criteria@[i].name@)
}

/// The table head: rank, document and total, one column per criterion, then
/// the on-page columns, and the separator row.
pub open spec fn table_head_spec(s: Spec) -> Seq<char> {
    "| Rank | Document | Total |"@ + criterion_columns(criterion_names(s))
        + " title | meta | H1 | Internal Links | Citation Links | Format Issues |\n|---|---|---|"@
        + separator_cells(s.criteria.len() as nat) + "---|---|---|---|---|---|\n"@
}

/// A criterion cell: the score, `(±half spread)` when the judges disagreed, and
/// a lock mark when the citation cap applied.
pub open spec fn cell_text(c: ScoreCell) -> Seq<char> {
    " "@ + c.score@ + match c.half_spread {
        Some(h) => " (±"@ + h@ + ")"@,
        None => seq![],
    } + if c.capped {
        " 🔒60"@
    } else {
        seq![]
    } + " |"@
}

pub open spec fn cells_text(cs: Seq<ScoreCell>) -> Seq<char>
    decreases cs.len(),
{
    if cs.len() == 0 {
        seq![]
    } else {
        cells_text(cs.drop_last()) + cell_text(cs.last())
    }
}

/// The format issues column: `-`, or how many there are.
pub open spec fn issue_count_text(n: nat) -> Seq<char> {
    if n == 0 {
        "-"@
    } else {
        decimal(n) + " issue(s)"@
    }
}

/// The table row of the document ranked `rank`.
pub open spec fn table_row(rank: nat, r: ScoreLine) -> Seq<char> {
    "| "@ + decimal(rank) + " | "@ + r.label@ + " | **"@ + r.total@ + "** |"@ + cells_text(r.cells@)
        + " "@ + decimal(r.metrics.title_chars as nat) + " chars | "@ + decimal(
        r.metrics.meta_chars as nat,
    ) + " chars | "@ + decimal(r.metrics.h1_count as nat) + " | "@ + decimal(
        r.metrics.internal_links as nat,
    ) + " | "@ + decimal(r.metrics.citation_links as nat) + " | "@ + issue_count_text(
        r.format_issues.len() as nat,
    ) + " |\n"@
}

/// The rows of the table, ranked 1, 2, ... in the order given.
pub open spec fn table_rows(rows: Seq<ScoreLine>) -> Seq<char>
    decreases rows.len(),
{
    if rows.len() == 0 {
        seq![]
    } else {
        table_rows(rows.drop_last()) + table_row(rows.len() as nat, rows.last())
    }
}

pub open spec fn table_spec(s: Spec, rows: Seq<ScoreLine>) -> Seq<char> {
    table_head_spec(s) + table_rows(rows)
}

fn table_head(s: &Spec) -> (r: String)
    ensures
        r@ == table_head_spec(*s),
{
    let mut out = String::new();
    out.append("| Rank | Document | Total |");
    let mut i: usize = 0;
    while i < s.criteria.len()
        invariant
            i <= s.criteria.len(),
            out@ == "| Rank | Document | Total |"@ + criterion_columns(criterion_names(*s).take(i as int)),
        decreases s.criteria.len() - i,
    {
        assert(criterion_names(*s).take(i + 1).drop_last() =~= criterion_names(*s).take(i as int));
        out.append(" ");
        out.append(s.criteria[i].name.as_str());
        out.append(" |");
        i += 1;
    }
    assert(criterion_names(*s).take(i as int) =~= criterion_names(*s));
    out.append(" title | meta | H1 | Internal Links | Citation Links | Format Issues |\n|---|---|---|");
    let ghost before = out@;
    let mut k: usize = 0;
    while k < s.criteria.len()
        invariant
            k <= s.criteria.len(),
            out@ == before + separator_cells(k as nat),
        decreases s.criteria.len() - k,
    {
        out.append("---|");
        k += 1;
    }
    out.append("---|---|---|---|---|---|\n");
    out
}

fn cell_string(c: &ScoreCell) -> (r: String)
    ensures
        r@ == cell_text(*c),
{
    let mut out = String::new();
    out.append(" ");
    out.append(c.score.as_str());
    match &c.half_spread {
        Some(h) => {
            out.append(" (±");
            out.append(h.as_str());
            out.append(")");
        },
        None => {
            assert(out@ =~= out@ + seq![]);
        },
    }
    if c.capped {
        out.append(" 🔒60");
    } else {
        assert(out@ =~= out@ + seq![]);
    }
    out.append(" |");
    out
}

fn table_row_string(rank: usize, r: &ScoreLine) -> (out: String)
    ensures
        out@ == table_row(rank as nat, *r),
{
    let mut out = String::new();
    out.append("| ");
    out.append(fmt_usize(rank).as_str());
    out.append(" | ");
    out.append(r.label.as_str());
    out.append(" | **");
    out.append(r.total.as_str());
    out.append("** |");
    let ghost before = out@;
    let mut i: usize = 0;
    while i < r.cells.len()
        invariant
            i <= r.cells.len(),
            out@ == before + cells_text(r.cells@.take(i as int)),
        decreases r.cells.len() - i,
    {
        assert(r.cells@.take(i + 1).drop_last() =~= r.cells@.take(i as int));
        out.append(cell_string(&r.cells[i]).as_str());
        i += 1;
    }
    assert(r.cells@.take(i as int) =~= r.cells@);
    out.append(" ");
    out.append(fmt_usize(r.metrics.title_chars).as_str());
    out.append(" chars | ");
    out.append(fmt_usize(r.metrics.meta_chars).as_str());
    out.append(" chars | ");
    out.append(fmt_usize(r.metrics.h1_count).as_str());
    out.append(" | ");
    out.append(fmt_usize(r.metrics.internal_links).as_str());
    out.append(" | ");
    out.append(fmt_usize(r.metrics.citation_links).as_str());
    out.append(" | ");
    if r.format_issues.len() == 0 {
        out.append("-");
    } else {
        out.append(fmt_usize(r.format_issues.len()).as_str());
        out.append(" issue(s)");
    }
    out.append(" |\n");
    out
}

fn table_string(s: &Spec, rows: &Vec<ScoreLine>) -> (out: String)
    requires
        rows.len() < usize::MAX,
    ensures
        out@ == table_spec(*s, rows@),
{
    let mut out = table_head(s);
    let ghost before = out@;
    let mut i: usize = 0;
    while i < rows.len()
        invariant
            i <= rows.len() < usize::MAX,
            out@ == before + table_rows(rows@.take(i as int)),
        decreases rows.len() - i,
    {
        assert(rows@.take(i + 1).drop_last() =~= rows@.take(i as int));
        out.append(table_row_string(i + 1, &rows[i]).as_str());
        i += 1;
    }
    assert(rows@.take(i as int) =~= rows@);
    out
}


// ---------------------------------------------------------------------------
// Per-document details
// ---------------------------------------------------------------------------

/// The counts line of a document's details.
pub open spec fn counts_line(m: Metrics) -> Seq<char> {
    "Body "@ + decimal(m.chars as nat) + " chars · H1 "@ + decimal(m.h1_count as nat)
        + " · Heading skips "@ + decimal(m.heading_skips as nat) + " · Images "@ + decimal(
        m.images_total as nat,
    ) + " (missing alt "@ + decimal(m.images_missing_alt as nat) + ") · Internal links "@
        + decimal(m.internal_links as nat) + " · Citation links "@ + decimal(
        m.citation_links as nat,
    )
}

pub open spec fn flesch_text(f: Option<(String, String)>) -> Seq<char> {
    match f {
        Some(p) => " · Flesch Reading Ease "@ + p.0@ + " (Grade "@ + p.1@ + ")"@,
        None => " · Flesch: N/A (non-English content — see README limitations)"@,
    }
}

pub open spec fn korean_text(k: Option<String>) -> Seq<char> {
    match k {
        Some(x) => " · Korean readability heuristic "@ + x@
            + " (⚠️ unvalidated heuristic — no academic basis, see README limitations)"@,
        None => seq![],
    }
}

pub open spec fn capped_text(ids: Seq<Seq<char>>) -> Seq<char> {
    if ids.len() == 0 {
        seq![]
    } else {
        "🔒 Items capped at 60 points due to insufficient citations: "@ + join_with(ids, ", "@)
            + "\n\n"@
    }
}

/// The judges' comments as quotes; blank comments are left out.
pub open spec fn quotes(cs: Seq<Seq<char>>) -> Seq<char>
    decreases cs.len(),
{
    if cs.len() == 0 {
        seq![]
    } else {
        quotes(cs.drop_last()) + if trim(cs.last()).len() > 0 {
            "> "@ + cs.last() + "\n\n"@
        } else {
            seq![]
        }
    }
}

pub open spec fn issues_block(fs: Seq<Seq<char>>) -> Seq<char> {
    if fs.len() == 0 {
        seq![]
    } else {
        "Automated format/on-page checks:\n\n"@ + bullets(fs) + "\n"@
    }
}

/// The items of `items` that are not among `known`, in order.
pub open spec fn items_not_in(items: Seq<Seq<char>>, known: Seq<Seq<char>>) -> Seq<Seq<char>>
    decreases items.len(),
{
    if items.len() == 0 {
        seq![]
    } else {
        items_not_in(items.drop_last(), known) + if known.contains(items.last()) {
            seq![]
        } else {
            seq![items.last()]
        }
    }
}

/// A document's details: its total, counts and readability, the capped
/// criteria, the judges' comments, the format findings, and the remaining
/// improvement instructions (those that are not format findings).
/// The improvement instructions a document's details list are its own, and
/// none of them repeats one of its format findings.
pub proof fn law_details_do_not_repeat_findings(items: Seq<Seq<char>>, known: Seq<Seq<char>>)
    ensures
        forall|k: int| 0 <= k < items_not_in(items, known).len() ==> items.contains(
            #[trigger] items_not_in(items, known)[k],
        ) && !known.contains(items_not_in(items, known)[k]),
    decreases items.len(),
{
    if items.len() > 0 {
        let init = items.drop_last();
        law_details_do_not_repeat_findings(init, known);
        let r = items_not_in(items, known);
        let ri = items_not_in(init, known);
        assert forall|k: int| 0 <= k < r.len() implies items.contains(#[trigger] r[k]) && !known.contains(
            r[k],
        ) by {
            if k < ri.len() {
                assert(r[k] == ri[k]);
                let j = choose|j: int| 0 <= j < init.len() && init[j] == ri[k];
                assert(items[j] == init[j]);
            } else {
                assert(r[k] == items.last());
                assert(items[items.len() - 1] == items.last());
            }
        }
    }
}

pub open spec fn doc_details_head(r: ScoreLine) -> Seq<char> {
    "\n### "@ + r.label@ + " ("@ + r.total@ + "/100)\n\n"@ + counts_line(r.metrics) + flesch_text(
        r.flesch,
    ) + korean_text(r.korean) + "\n\n"@
}

pub open spec fn doc_details_tail(r: ScoreLine) -> Seq<char> {
    capped_text(str_views(r.citation_capped@)) + quotes(str_views(r.comments@)) + issues_block(
        str_views(r.format_issues@),
    ) + "Improvement instructions:\n\n"@ + bullets(
        items_not_in(str_views(r.improvements@), str_views(r.format_issues@)),
    )
}

pub open spec fn doc_details(r: ScoreLine) -> Seq<char> {
    doc_details_head(r) + doc_details_tail(r)
}

pub open spec fn all_details(rows: Seq<ScoreLine>) -> Seq<char>
    decreases rows.len(),
{
    if rows.len() == 0 {
        seq![]
    } else {
        all_details(rows.drop_last()) + doc_details(rows.last())
    }
}

pub open spec fn details_spec(rows: Seq<ScoreLine>) -> Seq<char> {
    "\n---\n\n## Per-Document Details\n"@ + all_details(rows)
}

fn counts_string(m: &Metrics) -> (r: String)
    ensures
        r@ == counts_line(*m),
{
    let mut out = String::new();
    out.append("Body ");
    out.append(fmt_usize(m.chars).as_str());
    out.append(" chars · H1 ");
    out.append(fmt_usize(m.h1_count).as_str());
    out.append(" · Heading skips ");
    out.append(fmt_usize(m.heading_skips).as_str());
    out.append(" · Images ");
    out.append(fmt_usize(m.images_total).as_str());
    out.append(" (missing alt ");
    out.append(fmt_usize(m.images_missing_alt).as_str());
    out.append(") · Internal links ");
    out.append(fmt_usize(m.internal_links).as_str());
    out.append(" · Citation links ");
    out.append(fmt_usize(m.citation_links).as_str());
    out
}

fn quotes_string(cs: &Vec<String>) -> (r: String)
    ensures
        r@ == quotes(str_views(cs@)),
{
    let mut out = String::new();
    let mut i: usize = 0;
    while i < cs.len()
        invariant
            i <= cs.len(),
            out@ == quotes(str_views(cs@).take(i as int)),
        decreases cs.len() - i,
    {
        assert(str_views(cs@).take(i + 1).drop_last() =~= str_views(cs@).take(i as int));
        assert(str_views(cs@).take(i + 1).last() == cs@[i as int]@);
        if trim_vec(&chars_of(cs[i].as_str())).len() > 0 {
            out.append("> ");
            out.append(cs[i].as_str());
            out.append("\n\n");
        } else {
            assert(out@ =~= out@ + seq![]);
        }
        i += 1;
    }
    assert(str_views(cs@).take(i as int) =~= str_views(cs@));
    out
}

fn items_not_in_vec(items: &Vec<String>, known: &Vec<String>) -> (r: Vec<String>)
    ensures
        str_views(r@) == items_not_in(str_views(items@), str_views(known@)),
{
    let mut out: Vec<String> = Vec::new();
    let mut i: usize = 0;
    assert(str_views(out@) =~= Seq::<Seq<char>>::empty());
    while i < items.len()
        invariant
            i <= items.len(),
            str_views(out@) == items_not_in(str_views(items@).take(i as int), str_views(known@)),
        decreases items.len() - i,
    {
        assert(str_views(items@).take(i + 1).drop_last() =~= str_views(items@).take(i as int));
        assert(str_views(items@).take(i + 1).last() == items@[i as int]@);
        let ghost prev = str_views(out@);
        if !contains_string(known, &items[i]) {
            out.push(items[i].clone());
            assert(str_views(out@) =~= prev + seq![items@[i as int]@]);
        } else {
            assert(str_views(out@) =~= prev + Seq::<Seq<char>>::empty());
        }
        i += 1;
    }
    assert(str_views(items@).take(i as int) =~= str_views(items@));
    out
}

fn doc_details_head_string(r: &ScoreLine) -> (out: String)
    ensures
        out@ == doc_details_head(*r),
{
    let mut out = String::new();
    out.append("\n### ");
    out.append(r.label.as_str());
    out.append(" (");
    out.append(r.total.as_str());
    out.append("/100)\n\n");
    out.append(counts_string(&r.metrics).as_str());
    match &r.flesch {
        Some(p) => {
            out.append(" · Flesch Reading Ease ");
            out.append(p.0.as_str());
            out.append(" (Grade ");
            out.append(p.1.as_str());
            out.append(")");
        },
        None => {
            out.append(" · Flesch: N/A (non-English content — see README limitations)");
        },
    }
    match &r.korean {
        Some(x) => {
            out.append(" · Korean readability heuristic ");
            out.append(x.as_str());
            out.append(" (⚠️ unvalidated heuristic — no academic basis, see README limitations)");
        },
        None => {
            assert(out@ =~= out@ + seq![]);
        },
    }
    out.append("\n\n");
    out
}

fn doc_details_tail_string(r: &ScoreLine) -> (out: String)
    ensures
        out@ == doc_details_tail(*r),
{
    let mut out = String::new();
    if r.citation_capped.len() > 0 {
        out.append("🔒 Items capped at 60 points due to insufficient citations: ");
        out.append(join_strings(&r.citation_capped, ", ").as_str());
        out.append("\n\n");
    } else {
        assert(out@ =~= seq![]);
    }
    out.append(quotes_string(&r.comments).as_str());
    if r.format_issues.len() > 0 {
        out.append("Automated format/on-page checks:\n\n");
        out.append(bullets_string(&r.format_issues).as_str());
        out.append("\n");
    } else {
        assert(out@ =~= out@ + seq![]);
    }
    out.append("Improvement instructions:\n\n");
    let rest = items_not_in_vec(&r.improvements, &r.format_issues);
    out.append(bullets_string(&rest).as_str());
    out
}

fn doc_details_string(r: &ScoreLine) -> (out: String)
    ensures
        out@ == doc_details(*r),
{
    let mut out = doc_details_head_string(r);
    out.append(doc_details_tail_string(r).as_str());
    out
}

fn details_string(rows: &Vec<ScoreLine>) -> (out: String)
    ensures
        out@ == details_spec(rows@),
{
    let mut out = String::new();
    out.append("\n---\n\n## Per-Document Details\n");
    let ghost before = out@;
    let mut i: usize = 0;
    while i < rows.len()
        invariant
            i <= rows.len(),
            out@ == before + all_details(rows@.take(i as int)),
        decreases rows.len() - i,
    {
        assert(rows@.take(i + 1).drop_last() =~= rows@.take(i as int));
        out.append(doc_details_string(&rows[i]).as_str());
        i += 1;
    }
    assert(rows@.take(i as int) =~= rows@);
    out
}

// ---------------------------------------------------------------------------
// The reports
// ---------------------------------------------------------------------------

/// The closing line with the accumulated cost, rendered by the caller.
pub open spec fn cost_footer(cost: Seq<char>) -> Seq<char> {
    "\n---\n\nCumulative API cost: $"@ + cost + "\n"@
}

/// The ranking report: header, table, details and cost, the documents in the
/// order given (the caller ranks them).
pub open spec fn scoring_report_spec(
    s: Spec,
    rows: Seq<ScoreLine>,
    rounds: nat,
    models: Seq<Seq<char>>,
    cost: Seq<char>,
) -> Seq<char> {
    report_header_spec(s, rows.len(), rounds, models) + table_spec(s, rows) + details_spec(rows)
        + cost_footer(cost)
}

/// The ranking report of a scoring run. `rows` are the documents in rank
/// order, `rounds` and `models` describe the first document's scoring (0 and
/// none without documents), `cost` is the rendered accumulated cost.
pub fn scoring_report(s: &Spec, rows: &Vec<ScoreLine>, rounds: usize, models: &Vec<String>, cost: &str) -> (r: String)
    requires
        rows.len() < usize::MAX,
    ensures
        r@ == scoring_report_spec(*s, rows@, rounds as nat, str_views(models@), cost@),
{
    let mut out = report_header(s, rows.len(), rounds, models);
    out.append(table_string(s, rows).as_str());
    out.append(details_string(rows).as_str());
    out.append("\n---\n\nCumulative API cost: $");
    out.append(cost);
    out.append("\n");
    out
}

/// The held-out check of a loop: the first and best drafts scored again by
/// judges that took no part in the loop. Scores come rendered; `suspect` is the
/// outcome of `reward_hacking_suspected`.
pub struct GateLines {
    /// The held-out judge models, joined.
    pub models: String,
    pub loop_first: String,
    pub gate_first: String,
    pub loop_best: String,
    pub gate_best: String,
    /// The loop's gain (best minus first), rendered with a sign.
    pub loop_gain: String,
    /// The held-out gain, rendered with a sign.
    pub gate_gain: String,
    pub suspect: bool,
}

/// Whether the held-out gain is under a third of the loop's gain (more
/// precisely under 34%), the loop having gained at all: a sign that the loop
/// optimised for its judges rather than for the content. Totals in tenths of a
/// point.
pub open spec fn reward_hacking_spec(loop_first: i64, loop_best: i64, gate_first: i64, gate_best: i64) -> bool {
    let ld = loop_best - loop_first;
    let gd = gate_best - gate_first;
    ld > 0 && 100 * gd < 34 * ld
}

pub fn reward_hacking_suspected(loop_first: i64, loop_best: i64, gate_first: i64, gate_best: i64) -> (r: bool)
    ensures
        r == reward_hacking_spec(loop_first, loop_best, gate_first, gate_best),
{
    let ld: i128 = (loop_best as i128) - (loop_first as i128);
    let gd: i128 = (gate_best as i128) - (gate_first as i128);
    ld > 0 && 100 * gd < 34 * ld
}

pub open spec fn gate_text(g: GateLines) -> Seq<char> {
    "\n## Held-out Verification (scoring model excluded from the loop: "@ + g.models@
        + ")\n\n| Target | Loop score | Held-out score |\n|---|---|---|\n| First draft | "@
        + g.loop_first@ + " | "@ + g.gate_first@ + " |\n| Best draft | "@ + g.loop_best@ + " | "@
        + g.gate_best@ + " |\n\nLoop-measured improvement "@ + g.loop_gain@ + " pts vs held-out "@
        + g.gate_gain@ + " pts\n\n"@ + if g.suspect {
        "> ⚠ Held-out improvement is less than 1/3 of the loop improvement → possible scorer optimization (reward hacking). Manually verify that actual content quality improved.\n\n"@
    } else {
        seq![]
    }
}

pub open spec fn opt_gate_text(g: Option<GateLines>) -> Seq<char> {
    match g {
        Some(x) => gate_text(x),
        None => seq![],
    }
}

/// A row of the per-round trend: the change against the previous round, or `-`.
pub open spec fn trend_row(r: ScoreLine, delta: Option<String>) -> Seq<char> {
    "| "@ + r.label@ + " | "@ + r.total@ + " | "@ + match delta {
        Some(d) => d@,
        None => "-"@,
    } + " | "@ + decimal(r.metrics.chars as nat) + " chars | "@ + decimal(
        r.format_issues.len() as nat,
    ) + " issue(s) |\n"@
}

pub open spec fn trend_rows(rows: Seq<ScoreLine>, deltas: Seq<Option<String>>, n: nat) -> Seq<char>
    decreases n,
{
    if n == 0 {
        seq![]
    } else {
        trend_rows(rows, deltas, (n - 1) as nat) + trend_row(rows[n - 1], deltas[n - 1])
    }
}

pub open spec fn warnings_text(ws: Seq<Seq<char>>) -> Seq<char> {
    if ws.len() == 0 {
        seq![]
    } else {
        "\n## Warnings\n\n"@ + bullets(ws)
    }
}

/// The loop report: the opening lines and stop reason, the per-round trend, the
/// held-out check when there was one, the warnings, every round's details and
/// the cost.
pub open spec fn loop_report_spec(
    s: Spec,
    rows: Seq<ScoreLine>,
    deltas: Seq<Option<String>>,
    stop_reason: Seq<char>,
    warnings: Seq<Seq<char>>,
    gate: Option<GateLines>,
    cost: Seq<char>,
) -> Seq<char> {
    head_spec("# Loop Report — "@, s) + "Stop reason: "@ + stop_reason + "\n\n"@
        + "## Per-Round Trend\n\n| Round | Total | Δ | Length | Format Issues |\n|---|---|---|---|---|\n"@
        + trend_rows(rows, deltas, rows.len()) + opt_gate_text(gate) + warnings_text(warnings)
        + details_spec(rows) + cost_footer(cost)
}

fn gate_string(g: &GateLines) -> (r: String)
    ensures
        r@ == gate_text(*g),
{
    let mut out = String::new();
    out.append("\n## Held-out Verification (scoring model excluded from the loop: ");
    out.append(g.models.as_str());
    out.append(")\n\n| Target | Loop score | Held-out score |\n|---|---|---|\n| First draft | ");
    out.append(g.loop_first.as_str());
    out.append(" | ");
    out.append(g.gate_first.as_str());
    out.append(" |\n| Best draft | ");
    out.append(g.loop_best.as_str());
    out.append(" | ");
    out.append(g.gate_best.as_str());
    out.append(" |\n\nLoop-measured improvement ");
    out.append(g.loop_gain.as_str());
    out.append(" pts vs held-out ");
    out.append(g.gate_gain.as_str());
    out.append(" pts\n\n");
    if g.suspect {
        out.append("> ⚠ Held-out improvement is less than 1/3 of the loop improvement → possible scorer optimization (reward hacking). Manually verify that actual content quality improved.\n\n");
    } else {
        assert(out@ =~= out@ + seq![]);
    }
    out
}

fn trend_row_string(r: &ScoreLine, delta: &Option<String>) -> (out: String)
    ensures
        out@ == trend_row(*r, *delta),
{
    let mut out = String::new();
    out.append("| ");
    out.append(r.label.as_str());
    out.append(" | ");
    out.append(r.total.as_str());
    out.append(" | ");
    match delta {
        Some(d) => out.append(d.as_str()),
        None => out.append("-"),
    }
    out.append(" | ");
    out.append(fmt_usize(r.metrics.chars).as_str());
    out.append(" chars | ");
    out.append(fmt_usize(r.format_issues.len()).as_str());
    out.append(" issue(s) |\n");
    out
}

/// The report of an improvement loop. `rows` are the rounds in order, `deltas`
/// the rendered change of each round's total against the previous round (none
/// for the first), `gate` the held-out check when one was run.
pub fn loop_report(
    s: &Spec,
    rows: &Vec<ScoreLine>,
    deltas: &Vec<Option<String>>,
    stop_reason: &str,
    warnings: &Vec<String>,
    gate: &Option<GateLines>,
    cost: &str,
) -> (r: String)
    requires
        deltas.len() == rows.len(),
    ensures
        r@ == loop_report_spec(
            *s,
            rows@,
            deltas@,
            stop_reason@,
            str_views(warnings@),
            *gate,
            cost@,
        ),
{
    let mut out = head_string("# Loop Report — ", s);
    out.append("Stop reason: ");
    out.append(stop_reason);
    out.append("\n\n");
    out.append("## Per-Round Trend\n\n| Round | Total | Δ | Length | Format Issues |\n|---|---|---|---|---|\n");
    let ghost before = out@;
    let mut i: usize = 0;
    while i < rows.len()
        invariant
            i <= rows.len(),
            deltas.len() == rows.len(),
            out@ == before + trend_rows(rows@, deltas@, i as nat),
        decreases rows.len() - i,
    {
        out.append(trend_row_string(&rows[i], &deltas[i]).as_str());
        i += 1;
    }
    match gate {
        Some(g) => out.append(gate_string(g).as_str()),
        None => {
            assert(out@ =~= out@ + seq![]);
        },
    }
    if warnings.len() > 0 {
        out.append("\n## Warnings\n\n");
        out.append(bullets_string(warnings).as_str());
    } else {
        assert(out@ =~= out@ + seq![]);
    }
    out.append(details_string(rows).as_str());
    out.append("\n---\n\nCumulative API cost: $");
    out.append(cost);
    out.append("\n");
    out
}


// ---------------------------------------------------------------------------
// Ranking
// ---------------------------------------------------------------------------

/// Document `a` ranks before document `b`: a higher total, or the same total
/// and an earlier position (the ranking is stable).
pub open spec fn ranks_before(t: Seq<i64>, a: int, b: int) -> bool {
    t[a] > t[b] || (t[a] == t[b] && a < b)
}

/// `order` ranks the documents whose totals are `t`: each position once, the
/// higher totals first, ties in the order given.
pub open spec fn is_ranking(t: Seq<i64>, order: Seq<usize>) -> bool {
    &&& order.len() == t.len()
    &&& forall|i: int| 0 <= i < order.len() ==> #[trigger] order[i] < t.len()
    &&& forall|i: int, j: int|
        0 <= i < j < order.len() ==> ranks_before(t, #[trigger] order[i] as int, #[trigger] order[j] as int)
}

/// The positions of the documents in rank order, given their totals (in tenths
/// of a point): highest total first, equal totals in the order given.
pub fn ranking(totals: &Vec<i64>) -> (r: Vec<usize>)
    ensures
        is_ranking(totals@, r@),
        forall|i: int, j: int| 0 <= i < j < r.len() ==> r[i] != r[j],
{
    let mut out: Vec<usize> = Vec::new();
    let mut k: usize = 0;
    while k < totals.len()
        invariant
            k <= totals.len(),
            out.len() == k,
            forall|i: int| 0 <= i < out.len() ==> #[trigger] out@[i] < k,
            forall|i: int, j: int|
                0 <= i < j < out.len() ==> ranks_before(totals@, #[trigger] out@[i] as int, #[trigger] out@[j] as int),
        decreases totals.len() - k,
    {
        let mut p: usize = 0;
        while p < out.len() && totals[out[p]] >= totals[k]
            invariant
                p <= out.len(),
                k < totals.len(),
                forall|i: int| 0 <= i < out.len() ==> #[trigger] out@[i] < k,
                forall|i: int| 0 <= i < p ==> totals@[#[trigger] out@[i] as int] >= totals@[k as int],
            decreases out.len() - p,
        {
            p += 1;
        }
        let ghost old_out = out@;
        proof {
            assert forall|i: int| p <= i < old_out.len() implies totals@[#[trigger] old_out[i] as int]
                < totals@[k as int] by {
                if i > p {
                    assert(ranks_before(totals@, old_out[p as int] as int, old_out[i] as int));
                }
            }
        }
        out.insert(p, k);
        assert forall|i: int| 0 <= i < out.len() implies #[trigger] out@[i] < k + 1 by {
            if i < p {
                assert(out@[i] == old_out[i]);
            } else if i > p {
                assert(out@[i] == old_out[i - 1]);
            }
        }
        assert forall|i: int, j: int| 0 <= i < j < out.len() implies ranks_before(
            totals@,
            #[trigger] out@[i] as int,
            #[trigger] out@[j] as int,
        ) by {
            if j < p {
                assert(out@[i] == old_out[i] && out@[j] == old_out[j]);
            } else if j == p {
                assert(out@[i] == old_out[i]);
            } else if i < p {
                assert(out@[i] == old_out[i] && out@[j] == old_out[j - 1]);
                assert(ranks_before(totals@, old_out[i] as int, old_out[j - 1] as int));
            } else if i == p {
                assert(out@[j] == old_out[j - 1]);
            } else {
                assert(out@[i] == old_out[i - 1] && out@[j] == old_out[j - 1]);
                assert(ranks_before(totals@, old_out[i - 1] as int, old_out[j - 1] as int));
            }
        }
        k += 1;
    }
    out
}

} // verus!
