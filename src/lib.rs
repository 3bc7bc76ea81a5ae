//! A small interactive shell core: whitespace tokenizing, a bounded command
//! history, and the decision of what each input line asks the host to do.

pub mod laws;
pub mod lexer;
pub mod number;
pub mod shell;

pub use lexer::{is_whitespace, same_text, tokenize, trim};
pub use number::{int_to_string, nat_to_string, parse_i32};
pub use shell::{
    background_message, cd_failed_message, spawn_failed_message, Action, Shell, MAX_HISTORY,
};
pub use laws::{
    lemma_blank_line_ignored, lemma_history_keeps_latest,
    lemma_trailing_ampersand_runs_in_background,
};
