//! Scaffolding engine for competitive-programming contest directories:
//! problem-label generation, contest classification, and mining of task
//! lists and sample input/output pairs out of contest pages.

pub mod cli;
pub mod contests;
pub mod errors;
pub mod labels;
pub mod names;
pub mod pages;
pub mod scaffold;
pub mod text;
