//! Pieces of the sample command-line harness: a model-call budget, the
//! terminal approval prompt, stderr progress lines, and a clock tool.

pub mod budget;
pub mod clock;
pub mod prompter;
pub mod progress;
