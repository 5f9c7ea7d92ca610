//! Checks, prompts, decisions and reports of an SEO content generator that
//! drafts with a language model, scores drafts against a rubric, and revises
//! them in a loop. Everything here is verified; the program around it (model
//! calls, files, threads and real-valued score arithmetic) lives outside.
pub mod text;
pub mod content;
pub mod checks;
pub mod llm;
pub mod generate;
pub mod score;
pub mod loop_run;
pub mod cli;
pub mod report;
