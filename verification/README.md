# seo_loop

A command-line tool (`seo`) for SEO content: it asks a model command-line
client for drafts, scores drafts against a rubric with deterministic checks and
a panel of model judges, and improves a draft in a loop of scoring and
revision.

The library in `src/` is verified with Verus: every public function states in
its contract what it returns, and the `law_*` proof functions state properties
that span calls.

- `text.rs` — character-level helpers: trimming, lines, joining, decimal rendering.
- `content.rs` — the content specification, its validation and its prompt sections.
- `checks.rs` — front matter, headings, links, internal vs. external urls,
  keyword placement, paragraph length, readability counts, metrics, format findings.
- `generate.rs`, `score.rs` — drafting, revision and judge prompts, content
  angles, judge rounds, the citation cap rule, merged improvement instructions.
- `llm.rs` — reading model replies: the wrapping code fence, JSON extraction,
  the reply envelope, retries.
- `loop_run.rs` — the loop's decisions and its canaries.
- `report.rs` — the markdown reports and the ranking.
- `cli.rs` — the judge panel, the files to score, draft labels, batches.

`app/` is the program around the library: argument parsing, the subprocess
backend, threads, files, and the real-valued score arithmetic (trimmed means,
weighted totals, readability formulas).
