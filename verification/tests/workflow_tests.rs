use seo_loop::cli::{
    batch_sizes, candidate_label, is_scorable_doc_name, judge_model_matches_gen, judge_models,
    numbered_label,
};
use seo_loop::content::{default_links_max, default_min_citations, Criterion, Section, Spec, SpecError};
use seo_loop::generate::{angles_for, build_prompt, build_revise_prompt, system_prompt};
use seo_loop::loop_run::{
    iteration_label, keyword_canary, length_canary, LoopDecision, LoopTracker, StopReason,
};
use seo_loop::score::{
    build_judge_prompt, citation_cap_applies, collect_improvements, feedback_text, judge_rounds,
    judge_system, lens_for_round, CITATION_CAP_POINTS,
};

fn criterion(id: &str, citation_required: bool) -> Criterion {
    Criterion {
        id: id.into(),
        name: format!("Name {id}"),
        guide: format!("Guide {id}"),
        citation_required,
    }
}

fn spec() -> Spec {
    Spec {
        name: "How-to post".into(),
        context: "A running store blog".into(),
        keyword: "running shoes".into(),
        scoring_source: String::new(),
        site_domain: "example.com".into(),
        title_min: 50,
        title_max: 60,
        meta_min: 120,
        meta_max: 160,
        internal_links_min: 3,
        internal_links_max: 5,
        min_citations: 1,
        angles: vec![],
        bands: vec![],
        sections: vec![],
        criteria: vec![criterion("intent", false), criterion("eeat", true)],
    }
}

// ---------------------------------------------------------------------------
// Judge panel and documents
// ---------------------------------------------------------------------------

#[test]
fn judge_model_list_is_trimmed_and_drops_blanks() {
    assert_eq!(judge_models(" sonnet , haiku,,"), vec!["sonnet", "haiku"]);
    assert_eq!(judge_models("opus"), vec!["opus"]);
    assert!(judge_models(" , ").is_empty());
    assert!(judge_models("").is_empty());
}

#[test]
fn self_scoring_is_detected_however_often_the_model_repeats() {
    assert!(judge_model_matches_gen(Some("sonnet"), None));
    assert!(judge_model_matches_gen(None, None));
    assert!(judge_model_matches_gen(Some("sonnet"), Some("sonnet")));
    assert!(judge_model_matches_gen(Some("sonnet"), Some("sonnet,sonnet")));
    assert!(judge_model_matches_gen(Some("sonnet"), Some(" sonnet , sonnet ,")));
    assert!(!judge_model_matches_gen(Some("sonnet"), Some("sonnet,haiku")));
    assert!(!judge_model_matches_gen(None, Some("sonnet")));
    assert!(!judge_model_matches_gen(Some("sonnet"), Some(",")));
}

#[test]
fn scored_files_are_markdown_or_text_but_not_the_report() {
    assert!(is_scorable_doc_name("draft.md"));
    assert!(is_scorable_doc_name("notes.v2.txt"));
    assert!(!is_scorable_doc_name("report.md"));
    assert!(!is_scorable_doc_name("image.png"));
    assert!(!is_scorable_doc_name(".md"));
    assert!(!is_scorable_doc_name("README"));
    assert!(!is_scorable_doc_name("draft.MD"));
    assert!(is_scorable_doc_name("..md"));
}

#[test]
fn labels_are_numbered_from_one_with_two_digits() {
    assert_eq!(candidate_label(0), "cand01");
    assert_eq!(candidate_label(9), "cand10");
    assert_eq!(candidate_label(122), "cand123");
    assert_eq!(iteration_label(1), "iter02");
    assert_eq!(numbered_label("x", 99), "x100");
}

#[test]
fn work_is_split_into_batches_of_the_concurrency() {
    assert_eq!(batch_sizes(2, 5), vec![2, 2, 1]);
    assert_eq!(batch_sizes(0, 3), vec![1, 1, 1]);
    assert_eq!(batch_sizes(8, 3), vec![3]);
    assert!(batch_sizes(4, 0).is_empty());
}

// ---------------------------------------------------------------------------
// Specification
// ---------------------------------------------------------------------------

#[test]
fn each_specification_error_has_its_input() {
    let ok = spec();
    assert!(ok.validate(true).is_ok());

    let mut s = spec();
    s.keyword = "  ".into();
    assert_eq!(s.validate(true), Err(SpecError::EmptyKeyword));
    let mut s = spec();
    s.criteria.clear();
    assert_eq!(s.validate(true), Err(SpecError::NoCriteria));
    assert_eq!(spec().validate(false), Err(SpecError::NonPositiveWeight));
    let mut s = spec();
    s.title_min = 70;
    assert_eq!(s.validate(true), Err(SpecError::TitleRange));
    let mut s = spec();
    s.meta_max = 10;
    assert_eq!(s.validate(true), Err(SpecError::MetaRange));
    let mut s = spec();
    s.internal_links_min = 9;
    assert_eq!(s.validate(true), Err(SpecError::LinkRange));
    let mut s = spec();
    s.criteria.push(criterion("intent", false));
    assert_eq!(s.validate(true), Err(SpecError::DuplicateCriterionId));
    assert_eq!(SpecError::DuplicateCriterionId.message(), "duplicate criteria id");
}

#[test]
fn defaults_and_prompt_sections() {
    assert_eq!(default_links_max(), 5);
    assert_eq!(default_min_citations(), 1);
    let mut s = spec();
    assert!(s.bands_prompt().starts_with("90-100: "));
    assert_eq!(s.bands_prompt().lines().count(), 5);
    s.bands = vec!["A".into(), "B".into()];
    assert_eq!(s.bands_prompt(), "A\nB");
    assert!(s.sections_prompt().starts_with("(No recommended outline"));
    s.sections = vec![
        Section {
            id: "a".into(),
            title: "Intro".into(),
            guide: "Say hi".into(),
            required: true,
        },
        Section {
            id: "b".into(),
            title: "More".into(),
            guide: "Go on".into(),
            required: false,
        },
    ];
    assert_eq!(
        s.sections_prompt(),
        "## Intro\n- Writing guide: Say hi\n- Required section\n\n## More\n- Writing guide: Go on"
    );
}

#[test]
fn rubric_lines_carry_the_rendered_weights_and_the_cap_note() {
    let s = spec();
    let r = s.rubric_prompt(&vec!["40".to_string(), "60".to_string()]);
    assert_eq!(
        r,
        "- id=\"intent\" | Name intent (weight 40%) : Guide intent\n- id=\"eeat\" | Name eeat (weight 60%) : Guide eeat [If the body has no source/citation links, this item is automatically capped at 60 points]"
    );
}

// ---------------------------------------------------------------------------
// Prompts and angles
// ---------------------------------------------------------------------------

#[test]
fn angles_cycle_through_the_pool() {
    let mut s = spec();
    let a = angles_for(&s, 8);
    assert_eq!(a.len(), 8);
    assert_eq!(a[0], a[6]);
    assert_eq!(a[1], a[7]);
    assert_ne!(a[0], a[1]);
    s.angles = vec!["one".into(), "two".into()];
    assert_eq!(angles_for(&s, 3), vec!["one", "two", "one"]);
    assert!(angles_for(&s, 0).is_empty());
}

#[test]
fn drafting_prompt_holds_the_conditions() {
    let s = spec();
    let p = build_prompt(&s, "BRIEF", "ANGLE", "RUBRIC");
    assert!(p.starts_with("# Task\nWrite an SEO content draft according to the conditions below.\n\n## Content type: How-to post\nA running store blog\n\n## Target keyword\nrunning shoes\n\n"));
    assert!(p.contains("## Content angle for this draft\nANGLE\n\n"));
    assert!(p.contains("## Content brief (source material)\nBRIEF\n\n"));
    assert!(p.contains("RUBRIC"));
    assert!(p.contains("title: \"a title between 50~60 characters\""));
    assert!(p.contains("- Place 3~5 internal links"));
    assert!(!build_prompt(&s, "B", "", "R").contains("Content angle"));
    assert!(system_prompt().starts_with("You are an expert SEO copywriter."));
}

#[test]
fn revision_prompt_mentions_weak_points_only_when_given() {
    let s = spec();
    let p = build_revise_prompt(&s, "BRIEF", "DOC", "FEEDBACK", "WEAK", "RUBRIC");
    assert!(p.contains("## Current draft\nDOC\n\n"));
    assert!(p.contains("## Review feedback (must be addressed)\nFEEDBACK\n\n"));
    assert!(p.contains("## Items with especially low scores\nWEAK\n\n"));
    let p = build_revise_prompt(&s, "BRIEF", "DOC", "FEEDBACK", "", "RUBRIC");
    assert!(!p.contains("especially low"));
}

#[test]
fn judge_prompt_holds_the_lens_rubric_and_document() {
    let s = spec();
    let p = build_judge_prompt(&s, "DOCUMENT", "LENS", "RUBRIC");
    assert!(p.contains("## This judge's lens\nLENS\n\n"));
    assert!(p.contains("## Scoring criteria (integer 0-100 for each item)\nRUBRIC\n\n"));
    assert!(p.ends_with("<document>\nDOCUMENT\n</document>\n"));
    assert!(judge_system().starts_with("You are an SEO content judge"));
    assert_eq!(lens_for_round(0), lens_for_round(6));
    assert_ne!(lens_for_round(0), lens_for_round(1));
}

// ---------------------------------------------------------------------------
// Scoring
// ---------------------------------------------------------------------------

#[test]
fn rounds_cycle_through_the_judge_panel() {
    assert_eq!(judge_rounds(5, 2), vec![0, 1, 0, 1, 0]);
    assert_eq!(judge_rounds(0, 3), vec![0]);
}

#[test]
fn citation_cap_needs_a_citation_criterion_and_too_few_links() {
    assert!(citation_cap_applies(&criterion("e", true), 0, 1));
    assert!(!citation_cap_applies(&criterion("e", true), 1, 1));
    assert!(!citation_cap_applies(&criterion("e", false), 0, 1));
    assert_eq!(CITATION_CAP_POINTS, 60);
}

#[test]
fn improvements_start_with_format_issues_and_skip_repeats() {
    let fmt = vec!["Fix title".to_string()];
    let judges = vec![
        vec!["  Add sources ".to_string(), "Fix title".to_string()],
        vec!["Add sources".to_string(), " ".to_string(), "Shorten intro".to_string()],
    ];
    assert_eq!(
        collect_improvements(&fmt, &judges),
        vec!["Fix title", "Add sources", "Shorten intro"]
    );
}

#[test]
fn feedback_lists_instructions_then_comments() {
    let f = feedback_text(&vec!["a".into(), "b".into()], &vec!["c".into()]);
    assert_eq!(
        f,
        "[Revision instructions that must be applied]\n- a\n- b\n\n[Judge's overall comments]\n- c\n"
    );
    let f = feedback_text(&vec![], &vec![]);
    assert_eq!(f, "[Revision instructions that must be applied]\n");
}

// ---------------------------------------------------------------------------
// Loop
// ---------------------------------------------------------------------------

#[test]
fn loop_stops_at_the_target() {
    let mut t = LoopTracker::new(2, 4);
    assert_eq!(t.record(800, false, false), LoopDecision::Revise);
    assert_eq!(
        t.record(870, false, true),
        LoopDecision::Stop(StopReason::TargetReached)
    );
    assert_eq!(t.best_index(), 1);
    assert_eq!(t.best_total(), Some(870));
}

#[test]
fn loop_stops_when_improvement_stalls() {
    let mut t = LoopTracker::new(2, 10);
    assert_eq!(t.record(700, false, false), LoopDecision::Revise);
    assert_eq!(t.record(690, false, false), LoopDecision::Revise);
    assert_eq!(
        t.record(710, true, false),
        LoopDecision::Stop(StopReason::Stalled)
    );
    assert_eq!(t.best_index(), 2);
    assert_eq!(t.iterations(), 3);
}

#[test]
fn loop_stops_at_the_iteration_budget_and_keeps_the_first_best() {
    let mut t = LoopTracker::new(5, 3);
    assert_eq!(t.best_total(), None);
    assert_eq!(t.record(700, false, false), LoopDecision::Revise);
    assert_eq!(t.record(750, false, false), LoopDecision::Revise);
    assert_eq!(
        t.record(750, false, false),
        LoopDecision::Stop(StopReason::MaxIterations)
    );
    assert_eq!(t.best_index(), 1);
    let mut once = LoopTracker::new(5, 0);
    assert_eq!(
        once.record(1, false, false),
        LoopDecision::Stop(StopReason::MaxIterations)
    );
}

#[test]
fn canaries_watch_length_and_keyword_growth_against_small_gains() {
    assert!(length_canary(1000, 1300, 700, 740));
    assert!(!length_canary(1000, 1250, 700, 740));
    assert!(!length_canary(1000, 1300, 700, 750));
    assert!(!length_canary(0, 1300, 700, 700));
    assert!(keyword_canary(4, 7, 700, 700));
    assert!(!keyword_canary(4, 6, 700, 700));
    assert!(!keyword_canary(0, 6, 700, 700));
    assert!(!keyword_canary(4, 9, 700, 760));
}
