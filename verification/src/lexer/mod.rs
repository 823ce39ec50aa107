pub mod token;
mod basic;

pub use self::basic::{BasicLexer, LexError, alphabetic, is_letter, is_digit, digits_end, letters_end, find_char, count_newlines, decimal_value, keyword, single_char_token, pair_token, LexState, Scanned, scan, lemma_scan_progress, lex_from, lex_all, ordered_stream, lemma_lex_stream, reserved_word, lowercase_word, lemma_reserved_words, lemma_word_lexes, lemma_reserved_word_lexes, symbol_kind, lemma_symbol_lexes};
