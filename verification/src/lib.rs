//! Core of a desktop companion application's embedded interactive shell:
//! a shell locator, a single-slot session registry with its lifecycle rules,
//! the output pumps that forward decoded chunks to a subscriber, and the
//! scanner that turns knowledge-log Markdown into flat records.

pub mod bridge;
pub mod company;
pub mod knowledge;
pub mod pump;
pub mod shell;
