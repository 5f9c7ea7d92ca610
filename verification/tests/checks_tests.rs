use seo_loop::checks::{
    contains_kw, count_kw_occurrences, count_korean_sentences, count_syllables, format_issues,
    headings, is_internal_url, is_technical_word, korean_readability_counts, metrics,
    missing_sections, paragraph_length_issues, parse_front_matter, readability_counts, scan_links,
    strip_markdown_to_prose,
};
use seo_loop::content::{Criterion, Section, Spec};

fn test_spec() -> Spec {
    Spec {
        name: "t".into(),
        context: String::new(),
        keyword: "running shoes".into(),
        scoring_source: String::new(),
        site_domain: "example.com".into(),
        title_min: 50,
        title_max: 60,
        meta_min: 120,
        meta_max: 160,
        internal_links_min: 3,
        internal_links_max: 5,
        min_citations: 1,
        angles: vec![],
        bands: vec![],
        sections: vec![],
        criteria: vec![Criterion {
            id: "x".into(),
            name: "x".into(),
            guide: String::new(),
            citation_required: false,
        }],
    }
}

fn korean_score(body: &str) -> Option<f64> {
    let c = korean_readability_counts(body)?;
    let w = c.words as f64;
    let score = 100.0
        - (w / c.sentences as f64) * 1.015
        - (c.syllables as f64 / w) * 8.0
        - (c.technical as f64 / w) * 35.0;
    Some((score * 10.0).round() / 10.0)
}

#[test]
fn front_matter_parses() {
    let doc = "---\ntitle: \"Hello\"\nmeta_description: \"Description\"\n---\n# H1\nBody";
    let (t, m, b) = parse_front_matter(doc);
    assert_eq!(t.as_deref(), Some("Hello"));
    assert_eq!(m.as_deref(), Some("Description"));
    assert!(b.contains("# H1"));
}

#[test]
fn heading_skip_detected() {
    let body = "# H1\n### H3\n";
    let h = headings(body);
    assert_eq!(h, vec![(1, "H1".to_string()), (3, "H3".to_string())]);
}

#[test]
fn link_scan_separates_images_and_links() {
    let links =
        scan_links("body ![alt text](img.png) and [internal](/a) [external](https://ex.com)");
    assert_eq!(links.len(), 3);
    assert!(links[0].is_image);
}

#[test]
fn link_scan_handles_nested_brackets_in_label() {
    let links = scan_links("[a[b]c](https://ex.com)");
    assert_eq!(links.len(), 1, "{links:?}");
    assert_eq!(links[0].label, "a[b]c");
    assert_eq!(links[0].url, "https://ex.com");
}

#[test]
fn link_scan_ignores_escaped_brackets() {
    let links = scan_links(r"\[this is not a link\](url) and [real](https://ex.com)");
    assert_eq!(links.len(), 1, "{links:?}");
    assert_eq!(links[0].url, "https://ex.com");
}

#[test]
fn keyword_placement_flags_missing() {
    let spec = test_spec();
    let doc = "---\ntitle: \"Spring new sneaker recommendations\"\nmeta_description: \"short\"\n---\n# How to choose sneakers\nToday, let's talk about shoes.";
    let issues = format_issues(&spec, doc);
    assert!(issues.iter().any(|i| i.contains("running shoes")));
}

#[test]
fn front_matter_parses_with_crlf() {
    let doc = "---\r\ntitle: \"Hello\"\r\nmeta_description: \"Description\"\r\n---\r\n# H1\r\nBody";
    let (t, m, b) = parse_front_matter(doc);
    assert_eq!(t.as_deref(), Some("Hello"));
    assert_eq!(m.as_deref(), Some("Description"));
    assert!(b.contains("H1"), "{b:?}");
    assert!(
        !b.contains("title:"),
        "front matter lines must not leak into the body: {b:?}"
    );
}

#[test]
fn front_matter_unclosed_falls_back_and_is_flagged() {
    let spec = test_spec();
    let doc = "---\ntitle: X\nthis is body content, but there's no closing ---";
    let (t, m, _) = parse_front_matter(doc);
    assert!(t.is_none() && m.is_none());
    let issues = format_issues(&spec, doc);
    assert!(issues.iter().any(|i| i.contains("closing")), "{issues:?}");
}

#[test]
fn internal_url_spoofing_is_rejected() {
    assert!(!is_internal_url("https://notexample.com/a", "example.com"));
    assert!(!is_internal_url(
        "https://example.com.evil.com/a",
        "example.com"
    ));
    assert!(is_internal_url("https://example.com/a", "example.com"));
    assert!(is_internal_url("https://blog.example.com/a", "example.com"));
    assert!(is_internal_url("/relative/path", "example.com"));
}

#[test]
fn readability_returns_none_for_korean() {
    let body = "# 제목\n\n이것은 한국어로 작성된 본문입니다. 영어 음절 기반 공식이 적용되지 않아야 합니다.";
    assert!(readability_counts(body).is_none());
}

#[test]
fn korean_readability_computes_expected_score() {
    // 2 sentences of 2 words, 3 syllables a word, no technical terms:
    // 100 - 2.0*1.015 - 3.0*8.0 - 0 = 73.97, which rounds to 74.0.
    let body = "가나다 라마바. 사아자 차카타.";
    let score = korean_score(body).expect("Korean document should yield Some");
    assert!((score - 74.0).abs() < 0.1, "score={score}");
}

#[test]
fn korean_readability_none_for_latin_dominant_text() {
    let body = "This is a fully English sentence used to test the exclusivity rule.";
    assert!(korean_readability_counts(body).is_none());
}

#[test]
fn korean_readability_field_matches_flesch_exclusivity_in_metrics() {
    let spec = test_spec();
    let doc = "---\ntitle: \"러닝화 고르는 법에 대한 상세 가이드 전체 안내\"\nmeta_description: \"러닝화를 고르는 방법에 대한 아주 상세하고 도움이 되는 설명입니다 충분히 길게\"\n---\n# 러닝화 고르는 법\n러닝화를 고를 때는 발볼과 쿠셔닝을 함께 확인해야 합니다. 전문성 있는 선택이 중요합니다.\n";
    let m = metrics(doc, &spec);
    assert!(m.flesch.is_none());
    assert!(m.korean.is_some());
}

#[test]
fn keyword_occurrence_count() {
    let body = "Running shoes story. Running shoes are good. RunningShoe and running shoes.";
    assert_eq!(count_kw_occurrences(body, "running shoes"), 3);
}

#[test]
fn unquote_handles_bare_value() {
    let doc = "---\ntitle: Title without quotes\nmeta_description: \"Description\"\n---\n# H1\nBody";
    let (t, _, _) = parse_front_matter(doc);
    assert_eq!(t.as_deref(), Some("Title without quotes"));
}

#[test]
fn whitespace_only_alt_counts_as_missing() {
    let links = scan_links("![ ](img.png)");
    assert_eq!(links.len(), 1);
    assert!(links[0].label.trim().is_empty());
}

#[test]
fn long_paragraph_is_flagged() {
    let long = "a".repeat(601);
    let body = format!("# T\n\n{long}\n");
    let issues = paragraph_length_issues(&body);
    assert!(issues.iter().any(|i| i.contains("too long")), "{issues:?}");
}

#[test]
fn short_paragraph_is_not_flagged() {
    let body = "# T\n\nThis is a short paragraph.\n";
    assert!(paragraph_length_issues(body).is_empty());
}

#[test]
fn internal_and_citation_link_counts() {
    let spec = test_spec();
    let doc = "---\ntitle: \"A complete, detailed guide to choosing running shoes\"\nmeta_description: \"A very detailed and helpful explanation of how to choose running shoes, long enough\"\n---\n# How to choose running shoes\nRunning shoes story. [internal1](https://example.com/a) [internal2](/b) [external](https://other.com/c)\n";
    let m = metrics(doc, &spec);
    assert_eq!(m.internal_links, 2);
    assert_eq!(m.citation_links, 1);
}

// ---------------------------------------------------------------------------
// Further cases
// ---------------------------------------------------------------------------

#[test]
fn document_without_front_matter_is_all_body() {
    let doc = "# Only a heading\nand text";
    let (t, m, b) = parse_front_matter(doc);
    assert!(t.is_none() && m.is_none());
    assert_eq!(b, doc);
}

#[test]
fn front_matter_body_starts_after_closing_line() {
    let doc = "---\ntitle: 'Single'\n---\nBody line";
    let (t, m, b) = parse_front_matter(doc);
    assert_eq!(t.as_deref(), Some("Single"));
    assert!(m.is_none());
    assert_eq!(b, "Body line");
}

#[test]
fn headings_need_a_space_and_at_most_six_hashes() {
    let body = "#NoSpace\n####### Seven\n## Two  \n";
    assert_eq!(headings(body), vec![(2, "Two".to_string())]);
}

#[test]
fn headings_are_read_line_by_line_even_inside_code_fences() {
    let body = "# Top\n```\n# inside\n```\n  ## Sub\n";
    assert_eq!(
        headings(body),
        vec![
            (1, "Top".to_string()),
            (1, "inside".to_string()),
            (2, "Sub".to_string())
        ]
    );
}

#[test]
fn link_without_url_part_is_not_a_link() {
    assert!(scan_links("[just brackets] and text").is_empty());
}

#[test]
fn non_http_schemes_and_protocol_relative_urls() {
    assert!(!is_internal_url("mailto:someone@example.com", "example.com"));
    assert!(!is_internal_url("//evil.example.org/a", "example.com"));
    assert!(is_internal_url("//example.com/a", "example.com"));
    assert!(!is_internal_url("ftp://example.com/file", "example.com"));
    assert!(is_internal_url("HTTPS://EXAMPLE.COM/A", "example.com"));
}

#[test]
fn backslash_and_control_characters_do_not_hide_a_host() {
    assert!(!is_internal_url("https:\\\\evil.com/a", "example.com"));
    assert!(!is_internal_url("ht\ttps://evil.com/a", "example.com"));
}

#[test]
fn keyword_matching_is_by_whole_words() {
    assert!(contains_kw("Great Running Shoes here", "running shoes"));
    assert!(!contains_kw("RunningShoes here", "running shoes"));
    assert!(!contains_kw("anything", "   "));
    assert_eq!(count_kw_occurrences("shoe shoes shoe", "shoe"), 2);
}

#[test]
fn missing_required_sections_are_reported_by_title() {
    let mut spec = test_spec();
    spec.sections = vec![
        Section {
            id: "faq".into(),
            title: "Frequently Asked Questions".into(),
            guide: String::new(),
            required: true,
        },
        Section {
            id: "pick".into(),
            title: "How to pick".into(),
            guide: String::new(),
            required: true,
        },
        Section {
            id: "extra".into(),
            title: "Extra".into(),
            guide: String::new(),
            required: false,
        },
    ];
    let doc = "---\ntitle: \"t\"\n---\n# Title\n## As\n## how to PICK\n";
    assert_eq!(
        missing_sections(&spec, doc),
        vec!["Frequently Asked Questions".to_string()]
    );
}

#[test]
fn format_issues_report_title_length_and_heading_skip() {
    let spec = test_spec();
    let doc = "---\ntitle: \"Running shoes\"\nmeta_description: \"running shoes\"\n---\n# Running shoes\n### Deep\nRunning shoes text.";
    let issues = format_issues(&spec, doc);
    assert!(issues.iter().any(|i| i.contains("title length 13 chars (recommended 50-60 chars)")), "{issues:?}");
    assert!(issues.iter().any(|i| i.contains("skip")), "{issues:?}");
}

#[test]
fn metrics_count_images_headings_and_keyword() {
    let spec = test_spec();
    let doc = "---\ntitle: \"Running shoes guide\"\n---\n# Running shoes\n![ ](a.png) ![alt](b.png)\n### skip\nRunning shoes are great.";
    let m = metrics(doc, &spec);
    assert_eq!(m.images_total, 2);
    assert_eq!(m.images_missing_alt, 1);
    assert_eq!(m.h1_count, 1);
    assert_eq!(m.heading_skips, 1);
    assert!(m.keyword_in_title && m.keyword_in_h1 && m.keyword_in_intro);
    assert_eq!(m.title_chars, 19);
}

#[test]
fn prose_drops_code_headings_and_link_targets() {
    let body = "# Title\nSee [the docs](https://x.com) now.\n```\ncode here\n```\nEnd.";
    let p = strip_markdown_to_prose(body);
    assert!(p.contains("See the docs now."), "{p:?}");
    assert!(!p.contains("code here"), "{p:?}");
    assert!(p.contains("Title\n"), "{p:?}");
    assert!(!p.contains("https"), "{p:?}");
}

#[test]
fn syllable_estimates() {
    assert_eq!(count_syllables("cat"), 1);
    assert_eq!(count_syllables("table"), 1);
    assert_eq!(count_syllables("beautiful"), 3);
    assert_eq!(count_syllables("make"), 1);
    assert_eq!(count_syllables(""), 0);
}

#[test]
fn english_readability_counts() {
    let c = readability_counts("The cat sat. The dog ran.").expect("English text");
    assert_eq!(c.words, 6);
    assert_eq!(c.sentences, 2);
    assert_eq!(c.syllables, 6);
}

#[test]
fn korean_sentences_and_technical_terms() {
    assert_eq!(count_korean_sentences("하나. 둘! 셋"), 2);
    assert_eq!(count_korean_sentences("끝."), 1);
    assert_eq!(count_korean_sentences(""), 0);
    assert!(is_technical_word("API"));
    assert!(is_technical_word("hello."));
    assert!(!is_technical_word("hi"));
    assert!(is_technical_word("안정성"));
    assert!(!is_technical_word("사과"));
    assert!(!is_technical_word("..."));
}

#[test]
fn link_scan_stays_fast_on_unmatched_brackets() {
    let started = std::time::Instant::now();
    assert!(scan_links(&"[".repeat(200_000)).is_empty());
    assert!(scan_links(&"[x](".repeat(50_000)).is_empty());
    let many = "[a](b) ".repeat(20_000);
    assert_eq!(scan_links(&many).len(), 20_000);
    assert!(started.elapsed().as_secs() < 10);
}

#[test]
fn link_scan_matches_nested_and_escaped_brackets() {
    let links = scan_links(r"[a [b] \] c](u1) ![i](u2) [broken](no close");
    assert_eq!(links.len(), 2);
    assert_eq!(links[0].label, r"a [b] \] c");
    assert_eq!(links[0].url, "u1");
    assert!(links[1].is_image);
    assert_eq!(links[1].url, "u2");
}

#[test]
fn keyword_does_not_match_across_word_boundaries() {
    assert!(!contains_kw("running shoe sale", "running shoes"));
    assert_eq!(count_kw_occurrences("running shoe sale", "running shoes"), 0);
}

#[test]
fn backslash_protocol_relative_url_is_external() {
    assert!(!is_internal_url("\\\\evil.example.org/a", "example.com"));
    assert!(is_internal_url("\\\\blog.example.com/a", "example.com"));
    assert!(is_internal_url("/about", ""));
    assert!(!is_internal_url("https://example.com/a", ""));
}
