use seo_loop::llm::{
    extract_json, interpret_reply, reply_json, retry_after_failure, strip_wrapping_fence,
    truncate, Reply, ReplyEnvelope, ReplyError,
};

#[test]
fn strip_wrapping_fence_removes_plain_fence() {
    let raw = "```\n---\ntitle: \"x\"\n---\n\n# H1\n\nbody\n```";
    assert_eq!(
        strip_wrapping_fence(raw),
        "---\ntitle: \"x\"\n---\n\n# H1\n\nbody"
    );
}

#[test]
fn strip_wrapping_fence_removes_language_tagged_fence() {
    let raw = "```markdown\n---\ntitle: \"x\"\n---\n\nbody\n```";
    assert_eq!(strip_wrapping_fence(raw), "---\ntitle: \"x\"\n---\n\nbody");
}

#[test]
fn strip_wrapping_fence_leaves_untouched_when_not_wrapped() {
    let raw = "---\ntitle: \"x\"\n---\n\nbody with a ```code``` span";
    assert_eq!(strip_wrapping_fence(raw), raw);
}

#[test]
fn strip_wrapping_fence_leaves_untouched_when_only_opening_fence() {
    let raw = "```\n---\ntitle: \"x\"\n---\n\nbody";
    assert_eq!(strip_wrapping_fence(raw), raw);
}

#[test]
fn strip_wrapping_fence_leaves_untouched_when_internal_fence_present() {
    let raw = "---\ntitle: \"x\"\n---\n\nExample:\n```rust\nfn main() {}\n```\n\nmore text";
    assert_eq!(strip_wrapping_fence(raw), raw);
}

#[test]
fn strip_wrapping_fence_removes_four_backtick_wrapper_around_nested_fence() {
    let raw = "````\n---\ntitle: \"x\"\n---\n\nExample:\n```rust\nfn main() {}\n```\n\nmore text\n````";
    assert_eq!(
        strip_wrapping_fence(raw),
        "---\ntitle: \"x\"\n---\n\nExample:\n```rust\nfn main() {}\n```\n\nmore text"
    );
}

#[test]
fn strip_wrapping_fence_removes_four_backtick_wrapper_with_language_tag() {
    let raw = "````markdown\n---\ntitle: \"x\"\n---\n\nbody\n````";
    assert_eq!(strip_wrapping_fence(raw), "---\ntitle: \"x\"\n---\n\nbody");
}

#[test]
fn strip_wrapping_fence_leaves_untouched_when_closer_is_shorter_than_opener() {
    let raw = "````\n---\ntitle: \"x\"\n---\n\nbody\n```";
    assert_eq!(strip_wrapping_fence(raw), raw);
}

#[test]
fn strip_wrapping_fence_accepts_longer_closer_than_opener() {
    let raw = "```\n---\ntitle: \"x\"\n---\n\nbody\n`````";
    assert_eq!(strip_wrapping_fence(raw), "---\ntitle: \"x\"\n---\n\nbody");
}

// ---------------------------------------------------------------------------
// Further cases
// ---------------------------------------------------------------------------

#[test]
fn strip_wrapping_fence_of_fence_pair_alone_is_empty() {
    assert_eq!(strip_wrapping_fence("```\n```"), "");
    assert_eq!(strip_wrapping_fence(""), "");
    assert_eq!(strip_wrapping_fence("```js-x\nbody\n```"), "```js-x\nbody\n```");
}

#[test]
fn truncate_counts_characters_and_marks_the_cut() {
    assert_eq!(truncate("hello", 5), "hello");
    assert_eq!(truncate("hello", 3), "hel…");
    assert_eq!(truncate("가나다라", 2), "가나…");
    assert_eq!(truncate("", 0), "");
}

#[test]
fn extract_json_reads_plain_fenced_and_braced_replies() {
    let v = extract_json("  {\"a\": 1}  ").unwrap();
    assert_eq!(v["a"], 1);
    let v = extract_json("Here you go:\n```json\n{\"b\": 2}\n```\nthanks").unwrap();
    assert_eq!(v["b"], 2);
    let v = extract_json("Result: {\"c\": [1, 2]} done").unwrap();
    assert_eq!(v["c"][1], 2);
}

#[test]
fn extract_json_failure_carries_the_trimmed_reply() {
    let e = extract_json("  no json here  ").unwrap_err();
    assert_eq!(e.snippet, "no json here");
    assert_eq!(e.message(), "Failed to extract JSON: no json here");
    let long = "x".repeat(400);
    let e = extract_json(&long).unwrap_err();
    assert_eq!(e.snippet.chars().count(), 301);
    assert!(e.snippet.ends_with('…'));
}

fn envelope(is_error: bool, subtype: Option<&str>, result: Option<&str>) -> ReplyEnvelope {
    ReplyEnvelope {
        is_error,
        subtype: subtype.map(|s| s.to_string()),
        result: result.map(|s| s.to_string()),
        structured: None,
    }
}

#[test]
fn reply_with_text_is_accepted() {
    let r = interpret_reply(envelope(false, None, Some("draft text"))).ok().unwrap();
    assert_eq!(r.text, "draft text");
    assert!(r.structured.is_none());
}

#[test]
fn reply_reported_as_error_is_refused_with_subtype_and_detail() {
    match interpret_reply(envelope(true, Some("error_max_turns"), Some("too many"))) {
        Err(e @ ReplyError::ErrorResponse { .. }) => {
            assert_eq!(
                e.message(),
                "model client error response (subtype=error_max_turns): too many"
            );
        }
        _ => panic!("expected an error response"),
    }
    match interpret_reply(envelope(true, None, None)) {
        Err(e) => assert_eq!(e.message(), "model client error response (subtype=?): "),
        Ok(_) => panic!("expected an error response"),
    }
}

#[test]
fn blank_reply_without_structured_output_is_empty() {
    match interpret_reply(envelope(false, None, Some("  \n "))) {
        Err(ReplyError::Empty) => {}
        _ => panic!("expected an empty reply"),
    }
    match interpret_reply(envelope(false, None, None)) {
        Err(e) => assert_eq!(e.message(), "Empty response"),
        Ok(_) => panic!("expected an empty reply"),
    }
}

#[test]
fn blank_reply_with_structured_output_is_accepted() {
    let mut env = envelope(false, None, None);
    env.structured = Some(serde_json::Value::Bool(true));
    let r = interpret_reply(env).ok().unwrap();
    assert_eq!(r.text, "");
    assert_eq!(r.structured, Some(serde_json::Value::Bool(true)));
}

#[test]
fn reply_json_prefers_structured_output() {
    let rep = Reply {
        text: "{\"from\": \"text\"}".to_string(),
        structured: Some(serde_json::Value::String("structured".to_string())),
    };
    assert_eq!(
        reply_json(rep).unwrap(),
        serde_json::Value::String("structured".to_string())
    );
    let rep = Reply {
        text: "{\"from\": \"text\"}".to_string(),
        structured: None,
    };
    assert_eq!(reply_json(rep).unwrap()["from"], "text");
}

#[test]
fn retries_stop_after_the_allowed_count() {
    assert!(retry_after_failure(0, 2));
    assert!(retry_after_failure(1, 2));
    assert!(!retry_after_failure(2, 2));
    assert!(!retry_after_failure(0, 0));
}
