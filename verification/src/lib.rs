//! Transcription history and correction rules: the rules that decide what is
//! stored, how a correction rule rewrites a transcription, how history is
//! paged and pruned, and how legacy migration tracking is taken over.
pub mod clock;
pub mod corrections;
pub mod error;
pub mod history;
pub mod migration;
pub mod text;
