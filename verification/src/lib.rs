//! Lexical code-debt scanning: pattern registry, line matching, enrichment,
//! and the filter / sort / summary stage over the resulting findings.

pub mod duplicates;
pub mod error;
pub mod filters;
pub mod git;
pub mod interactive;
pub mod matcher;
pub mod models;
pub mod paths;
pub mod pipeline;
pub mod progress;
pub mod report;
pub mod scanner;
pub mod patterns;
pub mod severity;
pub mod sorting;
pub mod summary;
pub mod text;
pub mod watch;

pub use models::{CodeDebtItem, Finding};
pub use patterns::Pattern;
pub use scanner::CodeDebtScanner;
pub use severity::Severity;
