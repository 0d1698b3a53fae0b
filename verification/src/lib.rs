//! A build wrapper's engine: it splits a child's output into lines, tells
//! warnings and errors from ordinary lines, collects the diagnostics and writes
//! the closing report.
pub mod classify;
pub mod decimal;
pub mod decode;
pub mod diagnostics;
pub mod drain;
pub mod lines;
pub mod names;
pub mod report;
pub mod text;
