use seo_loop::checks::Metrics;
use seo_loop::content::{Criterion, Spec};
use seo_loop::report::{
    loop_report, ranking, reward_hacking_suspected, scoring_report, GateLines, ScoreCell,
    ScoreLine,
};

fn spec() -> Spec {
    Spec {
        name: "Guide".into(),
        context: String::new(),
        keyword: "running shoes".into(),
        scoring_source: "House rubric".into(),
        site_domain: "example.com".into(),
        title_min: 50,
        title_max: 60,
        meta_min: 120,
        meta_max: 160,
        internal_links_min: 3,
        internal_links_max: 5,
        min_citations: 1,
        angles: vec![],
        bands: vec![],
        sections: vec![],
        criteria: vec![Criterion {
            id: "eeat".into(),
            name: "E-E-A-T".into(),
            guide: String::new(),
            citation_required: true,
        }],
    }
}

fn metrics() -> Metrics {
    Metrics {
        title_chars: 55,
        meta_chars: 130,
        h1_count: 1,
        heading_skips: 0,
        images_total: 2,
        images_missing_alt: 1,
        internal_links: 3,
        citation_links: 0,
        chars: 1200,
        keyword_in_title: true,
        keyword_in_h1: true,
        keyword_in_intro: true,
        keyword_occurrences: 4,
        flesch: None,
        korean: None,
    }
}

fn line(label: &str, total: &str) -> ScoreLine {
    ScoreLine {
        label: label.into(),
        total: total.into(),
        cells: vec![ScoreCell {
            score: "60".into(),
            half_spread: Some("5".into()),
            capped: true,
        }],
        metrics: metrics(),
        flesch: Some(("65".into(), "8.2".into())),
        korean: None,
        citation_capped: vec!["eeat".into()],
        comments: vec!["Solid.".into(), "  ".into()],
        format_issues: vec!["Add a source".into()],
        improvements: vec!["Add a source".into(), "Tighten the intro".into()],
    }
}

#[test]
fn scoring_report_has_header_table_details_and_cost() {
    let r = scoring_report(
        &spec(),
        &vec![line("cand01", "72.5")],
        2,
        &vec!["sonnet".into(), "haiku".into()],
        "0.1234",
    );
    let expected = "# Scoring Report — Guide\n\n\
> Target keyword: running shoes\n\n\
> Scoring basis: House rubric\n\n\
1 documents · 2 scoring round(s) per document · Scoring model(s): sonnet, haiku\n\n\
| Rank | Document | Total | E-E-A-T | title | meta | H1 | Internal Links | Citation Links | Format Issues |\n\
|---|---|---|---|---|---|---|---|---|---|\n\
| 1 | cand01 | **72.5** | 60 (±5) 🔒60 | 55 chars | 130 chars | 1 | 3 | 0 | 1 issue(s) |\n\
\n---\n\n## Per-Document Details\n\
\n### cand01 (72.5/100)\n\n\
Body 1200 chars · H1 1 · Heading skips 0 · Images 2 (missing alt 1) · Internal links 3 · Citation links 0 · Flesch Reading Ease 65 (Grade 8.2)\n\n\
🔒 Items capped at 60 points due to insufficient citations: eeat\n\n\
> Solid.\n\n\
Automated format/on-page checks:\n\n\
- Add a source\n\n\
Improvement instructions:\n\n\
- Tighten the intro\n\
\n---\n\nCumulative API cost: $0.1234\n";
    assert_eq!(r, expected);
}

#[test]
fn empty_scoring_report_shows_no_models() {
    let mut s = spec();
    s.scoring_source = String::new();
    let r = scoring_report(&s, &vec![], 0, &vec![], "0.0000");
    assert!(r.starts_with("# Scoring Report — Guide\n\n> Target keyword: running shoes\n\n0 documents · 0 scoring round(s) per document · Scoring model(s): -\n\n"));
}

#[test]
fn details_without_readability_say_so() {
    let mut l = line("iter01", "70.0");
    l.flesch = None;
    l.korean = Some("74.0".into());
    l.cells[0].half_spread = None;
    l.cells[0].capped = false;
    l.format_issues.clear();
    let r = scoring_report(&spec(), &vec![l], 1, &vec!["m".into()], "0");
    assert!(r.contains("| 60 |"), "{r}");
    assert!(r.contains(" · Flesch: N/A (non-English content — see README limitations) · Korean readability heuristic 74.0 (⚠️ unvalidated heuristic — no academic basis, see README limitations)\n\n"), "{r}");
    assert!(r.contains("| - |\n"), "{r}");
    assert!(r.contains("Improvement instructions:\n\n- Add a source\n- Tighten the intro\n"), "{r}");
}

#[test]
fn loop_report_has_trend_gate_and_warnings() {
    let rows = vec![line("iter01", "70.0"), line("iter02", "80.0")];
    let deltas = vec![None, Some("+10.0".to_string())];
    let gate = Some(GateLines {
        models: "opus".into(),
        loop_first: "70.0".into(),
        gate_first: "68.0".into(),
        loop_best: "80.0".into(),
        gate_best: "69.0".into(),
        loop_gain: "+10.0".into(),
        gate_gain: "+1.0".into(),
        suspect: reward_hacking_suspected(700, 800, 680, 690),
    });
    let r = loop_report(
        &spec(),
        &rows,
        &deltas,
        "Reached target score (85 points)",
        &vec!["Watch the length".into()],
        &gate,
        "1.0000",
    );
    assert!(r.starts_with("# Loop Report — Guide\n\n> Target keyword: running shoes\n\n> Scoring basis: House rubric\n\nStop reason: Reached target score (85 points)\n\n## Per-Round Trend\n\n| Round | Total | Δ | Length | Format Issues |\n|---|---|---|---|---|\n| iter01 | 70.0 | - | 1200 chars | 1 issue(s) |\n| iter02 | 80.0 | +10.0 | 1200 chars | 1 issue(s) |\n"), "{r}");
    assert!(r.contains("| First draft | 70.0 | 68.0 |\n| Best draft | 80.0 | 69.0 |\n\nLoop-measured improvement +10.0 pts vs held-out +1.0 pts\n\n> ⚠ Held-out improvement"), "{r}");
    assert!(r.contains("\n## Warnings\n\n- Watch the length\n"), "{r}");
    assert!(r.ends_with("\n---\n\nCumulative API cost: $1.0000\n"));
}

#[test]
fn reward_hacking_needs_a_loop_gain_and_a_small_held_out_gain() {
    assert!(reward_hacking_suspected(700, 800, 680, 690));
    assert!(!reward_hacking_suspected(700, 800, 680, 720));
    assert!(reward_hacking_suspected(700, 800, 680, 713));
    assert!(!reward_hacking_suspected(700, 800, 680, 714));
    assert!(!reward_hacking_suspected(700, 700, 680, 600));
}

#[test]
fn ranking_puts_higher_totals_first_and_keeps_ties_in_order() {
    assert_eq!(ranking(&vec![700, 850, 700, 900]), vec![3, 1, 0, 2]);
    assert_eq!(ranking(&vec![]), Vec::<usize>::new());
    assert_eq!(ranking(&vec![5, 5, 5]), vec![0, 1, 2]);
}
