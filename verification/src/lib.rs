//! Mixed-output status extraction for a CLI supervisor.
//!
//! A desktop companion drives a command-line tool and its ecosystem
//! (Node.js, npm, Git) by spawning processes and reading what they
//! print.  That output is loosely structured: ANSI color codes, free-form
//! log lines, sometimes one embedded JSON document.  This crate holds the
//! logic that makes sense of it — nothing here touches a process, a file
//! or the network; the surrounding application captures text and values
//! and hands them in.
//!
//! The pipeline: [`normalize`] strips terminal escape sequences so that
//! line-based scanning is reliable; [`extract`] finds the boundaries of a
//! JSON document inside mixed output; [`status`] reads a channel's
//! tri-state status from a `- Name: enabled, configured, linked` line;
//! [`channels`] reconciles what the status line, the embedded JSON and
//! the configuration file each report.  Around that core, [`outcome`]
//! turns captured process results into the caller's `Result`, [`envfile`]
//! reads and edits `export KEY="VALUE"` files, [`versions`] compares
//! version strings, [`diagnose`] judges a diagnostic run, and [`types`]
//! holds the records the presentation layer consumes.

pub mod channels;
pub mod diagnose;
pub mod envfile;
pub mod extract;
pub mod json;
pub mod lines;
pub mod normalize;
pub mod outcome;
pub mod status;
pub mod text;
pub mod types;
pub mod versions;
