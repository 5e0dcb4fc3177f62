//! Model configuration and the named locations of pretrained resources.
//!
//! Fractional settings (dropout, layer-norm epsilon, the initializer factor)
//! are carried as integer counts of millionths, so the configuration stays in
//! exact arithmetic; the numeric backend that consumes them divides by one
//! million.

use vstd::prelude::*;

verus! {

/// Locations of pretrained T5 weight files.
pub struct T5ModelResources;

/// Locations of pretrained T5 configuration files.
pub struct T5ConfigResources;

/// Locations of pretrained T5 vocabulary files.
pub struct T5VocabResources;

/// Task prefixes a caller may prepend to the source text.
pub struct T5Prefix;

impl T5ModelResources {
    /// Weight file for the small pretrained model: name and origin.
    pub const T5_SMALL: (&'static str, &'static str) = (
        "t5-small/model",
        "https://huggingface.co/t5-small/resolve/main/rust_model.ot",
    );

    /// Weight file for the base pretrained model: name and origin.
    pub const T5_BASE: (&'static str, &'static str) = (
        "t5-base/model",
        "https://huggingface.co/t5-base/resolve/main/rust_model.ot",
    );
}

impl T5ConfigResources {
    /// Configuration file for the small pretrained model: name and origin.
    pub const T5_SMALL: (&'static str, &'static str) = (
        "t5-small/config",
        "https://huggingface.co/t5-small/resolve/main/config.json",
    );

    /// Configuration file for the base pretrained model: name and origin.
    pub const T5_BASE: (&'static str, &'static str) = (
        "t5-base/config",
        "https://huggingface.co/t5-base/resolve/main/config.json",
    );
}

impl T5VocabResources {
    /// Vocabulary file for the small pretrained model: name and origin.
    pub const T5_SMALL: (&'static str, &'static str) = (
        "t5-small/spiece",
        "https://huggingface.co/t5-small/resolve/main/spiece.model",
    );

    /// Vocabulary file for the base pretrained model: name and origin.
    pub const T5_BASE: (&'static str, &'static str) = (
        "t5-base/spiece",
        "https://huggingface.co/t5-base/resolve/main/spiece.model",
    );
}

impl T5Prefix {
    /// Prefix for English-to-French translation.
    pub const ENGLISH2FRENCH: &'static str = "translate English to French:";

    /// Prefix for English-to-German translation.
    pub const ENGLISH2GERMAN: &'static str = "translate English to German:";
}

/// The T5 model architecture: dimensions, special token ids and flags.
#[derive(Clone, Debug)]
pub struct T5Config {
    /// Dropout probability, in millionths.
    pub dropout_rate: i64,
    /// Width of every hidden state.
    pub d_model: i64,
    /// Width of the feed-forward layers.
    pub d_ff: i64,
    /// Width of one attention head's key and value projections.
    pub d_kv: i64,
    /// Token that opens every decoder sequence, when configured.
    pub decoder_start_token_id: Option<i64>,
    /// End-of-sequence token, when configured.
    pub eos_token_id: Option<i64>,
    /// Weight initializer scale, in millionths.
    pub initializer_factor: i64,
    /// Whether the model pairs an encoder with a decoder.
    pub is_encoder_decoder: Option<bool>,
    /// Layer-normalization epsilon, in millionths.
    pub layer_norm_epsilon: i64,
    /// Largest supported sequence length.
    pub n_positions: i64,
    /// Number of attention heads per layer.
    pub num_heads: i64,
    /// Number of layers in each stack.
    pub num_layers: i64,
    /// Whether forward passes should return a key/value cache.
    pub output_past: Option<bool>,
    /// Padding token, when configured.
    pub pad_token_id: Option<i64>,
    /// Number of relative-position buckets used by attention.
    pub relative_attention_num_buckets: i64,
    /// Number of entries in the vocabulary.
    pub vocab_size: i64,
    /// Decoding settings for the bundled tasks.
    pub task_specific_params: TaskSpecificParams,
}

impl T5Config {
    /// The dimensions are strictly positive and the dropout probability is a
    /// fraction below one.
    pub open spec fn wf(&self) -> bool {
        &&& 0 < self.d_model
        &&& 0 < self.d_ff
        &&& 0 < self.d_kv
        &&& 0 < self.num_heads
        &&& 0 < self.num_layers
        &&& 0 < self.vocab_size
        &&& 0 < self.relative_attention_num_buckets
        &&& 0 <= self.dropout_rate < 1000000
    }
}

/// Decoding settings for the tasks a pretrained checkpoint ships with.
#[derive(Clone, Debug)]
pub struct TaskSpecificParams {
    /// Settings for summarization.
    pub summarization: Summarization,
    /// Settings for English-to-German translation.
    pub translation_en_to_de: TranslationEnToDe,
    /// Settings for English-to-French translation.
    pub translation_en_to_fr: TranslationEnToFr,
    /// Settings for English-to-Romanian translation.
    pub translation_en_to_ro: TranslationEnToRo,
}

/// Decoding settings for summarization.
#[derive(Clone, Debug)]
pub struct Summarization {
    /// Stop a beam as soon as enough finished candidates exist.
    pub early_stopping: bool,
    /// Length penalty applied by beam search, in millionths.
    pub length_penalty: i64,
    /// Longest generated sequence.
    pub max_length: i64,
    /// Shortest generated sequence.
    pub min_length: i64,
    /// Size of n-grams that may not repeat.
    pub no_repeat_ngram_size: i64,
    /// Number of beams held during search.
    pub num_beams: i64,
    /// Text prepended to the source.
    pub prefix: String,
}

/// Decoding settings for English-to-German translation.
#[derive(Clone, Debug)]
pub struct TranslationEnToDe {
    /// Stop a beam as soon as enough finished candidates exist.
    pub early_stopping: bool,
    /// Longest generated sequence.
    pub max_length: i64,
    /// Number of beams held during search.
    pub num_beams: i64,
    /// Text prepended to the source.
    pub prefix: String,
}

/// Decoding settings for English-to-French translation.
#[derive(Clone, Debug)]
pub struct TranslationEnToFr {
    /// Stop a beam as soon as enough finished candidates exist.
    pub early_stopping: bool,
    /// Longest generated sequence.
    pub max_length: i64,
    /// Number of beams held during search.
    pub num_beams: i64,
    /// Text prepended to the source.
    pub prefix: String,
}

/// Decoding settings for English-to-Romanian translation.
#[derive(Clone, Debug)]
pub struct TranslationEnToRo {
    /// Stop a beam as soon as enough finished candidates exist.
    pub early_stopping: bool,
    /// Longest generated sequence.
    pub max_length: i64,
    /// Number of beams held during search.
    pub num_beams: i64,
    /// Text prepended to the source.
    pub prefix: String,
}

} // verus!
