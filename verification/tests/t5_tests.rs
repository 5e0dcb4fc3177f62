use t5_model::attention::AttnWeights;
use t5_model::config::{T5ConfigResources, T5ModelResources, T5Prefix, T5VocabResources};
use t5_model::config::{
    Summarization, T5Config, TaskSpecificParams, TranslationEnToDe, TranslationEnToFr,
    TranslationEnToRo,
};
use t5_model::encoder::{Embedding, StackLayer, T5Stack};
use t5_model::generation_utils::Cache;
use t5_model::t5_model::{T5ForConditionalGeneration, T5Weights};
use t5_model::ModelError;

fn default_tasks() -> TaskSpecificParams {
    TaskSpecificParams {
        summarization: Summarization {
            early_stopping: false,
            length_penalty: 1000000,
            max_length: 142,
            min_length: 56,
            no_repeat_ngram_size: 3,
            num_beams: 4,
            prefix: "summarize: ".to_string(),
        },
        translation_en_to_de: TranslationEnToDe {
            early_stopping: false,
            max_length: 300,
            num_beams: 4,
            prefix: "translate English to German: ".to_string(),
        },
        translation_en_to_fr: TranslationEnToFr {
            early_stopping: false,
            max_length: 300,
            num_beams: 4,
            prefix: "translate English to French: ".to_string(),
        },
        translation_en_to_ro: TranslationEnToRo {
            early_stopping: false,
            max_length: 300,
            num_beams: 4,
            prefix: "translate English to Romanian: ".to_string(),
        },
    }
}

fn small_config() -> T5Config {
    T5Config {
        dropout_rate: 100000,
        d_model: 16,
        d_ff: 32,
        d_kv: 8,
        decoder_start_token_id: Some(0),
        eos_token_id: Some(1),
        initializer_factor: 1000000,
        is_encoder_decoder: Some(true),
        layer_norm_epsilon: 1,
        n_positions: 512,
        num_heads: 2,
        num_layers: 2,
        output_past: Some(true),
        pad_token_id: Some(0),
        relative_attention_num_buckets: 32,
        vocab_size: 32,
        task_specific_params: default_tasks(),
    }
}

fn zero_mat(rows: usize, cols: usize) -> Vec<Vec<i64>> {
    vec![vec![0i64; cols]; rows]
}

fn eye(n: usize) -> Vec<Vec<i64>> {
    let mut m = zero_mat(n, n);
    for i in 0..n {
        m[i][i] = 1;
    }
    m
}

/// Row `i` of the table is `[i + 1, 0, 0, ...]`.
fn embedding_rows(vocab: usize, d: usize) -> Vec<Vec<i64>> {
    let mut m = zero_mat(vocab, d);
    for i in 0..vocab {
        m[i][0] = (i as i64) + 1;
    }
    m
}

fn attn_from(m: &Vec<Vec<i64>>) -> AttnWeights {
    AttnWeights { wk: m.clone(), wv: m.clone(), wo: m.clone() }
}

fn build_weights(config: &T5Config, proj: &Vec<Vec<i64>>) -> T5Weights {
    let n = config.num_layers as usize;
    let mut encoder_layers = Vec::new();
    let mut decoder_layers = Vec::new();
    for _ in 0..n {
        encoder_layers.push(StackLayer { self_attention: attn_from(proj), cross_attention: None });
        decoder_layers.push(StackLayer {
            self_attention: attn_from(proj),
            cross_attention: Some(attn_from(proj)),
        });
    }
    T5Weights {
        shared: embedding_rows(config.vocab_size as usize, config.d_model as usize),
        encoder_layers,
        decoder_layers,
    }
}

/// All projections zero: each stack reduces to the residual stream, so the
/// decoder hidden state is exactly the embedded decoder tokens.
fn zero_model() -> T5ForConditionalGeneration {
    let config = small_config();
    let w = build_weights(&config, &zero_mat(16, 16));
    T5ForConditionalGeneration::new(w, &config, false, false)
}

/// Identity projections: attention sums really flow through the layers.
fn identity_model() -> T5ForConditionalGeneration {
    let config = small_config();
    let w = build_weights(&config, &eye(16));
    T5ForConditionalGeneration::new(w, &config, false, false)
}

#[test]
fn forward_shapes_first_step() {
    let model = zero_model();
    let src = vec![vec![0i64, 1, 2, 3]];
    let dec = vec![vec![5i64]];
    let out = model.forward_t(
        Some(&src),
        None,
        None,
        Some(&dec),
        None,
        None,
        None,
        None,
        false,
    );
    assert_eq!(out.decoder_output.len(), 1);
    assert_eq!(out.decoder_output[0].len(), 1);
    assert_eq!(out.decoder_output[0][0].len(), 32);
    let cache = out.next_cache.expect("a decoder pass returns a cache");
    assert_eq!(cache.len(), 2);
    for (self_state, cross_state) in &cache {
        let s = self_state.as_ref().expect("self state present");
        let c = cross_state.as_ref().expect("cross state present");
        assert_eq!(s.prev_key[0].len(), 1);
        assert_eq!(s.prev_value[0].len(), 1);
        assert_eq!(c.prev_key[0].len(), 4);
        assert_eq!(c.prev_value[0].len(), 4);
    }
}

#[test]
fn forward_incremental_cache_lengths() {
    let model = zero_model();
    let src = vec![vec![0i64, 1, 2, 3]];
    let dec1 = vec![vec![5i64]];
    let first = model.forward_t(
        Some(&src),
        None,
        None,
        Some(&dec1),
        None,
        None,
        None,
        None,
        false,
    );
    let enc = first.encoder_hidden_state.expect("encoding ran");
    let cache = first.next_cache.expect("cache present");
    let dec2 = vec![vec![7i64]];
    let second = model.forward_t(
        None,
        None,
        Some(&enc),
        Some(&dec2),
        None,
        None,
        None,
        Some(cache),
        false,
    );
    let cache2 = second.next_cache.expect("cache present");
    assert_eq!(cache2.len(), 2);
    for (self_state, cross_state) in &cache2 {
        let s = self_state.as_ref().expect("self state present");
        let c = cross_state.as_ref().expect("cross state present");
        assert_eq!(s.prev_key[0].len(), 2);
        assert_eq!(s.prev_value[0].len(), 2);
        assert_eq!(c.prev_key[0].len(), 4);
        assert_eq!(c.prev_value[0].len(), 4);
    }
}

#[test]
fn adapter_rejects_other_cache() {
    let model = zero_model();
    let src = vec![vec![0i64, 1, 2, 3]];
    let dec = vec![vec![5i64]];
    let r = model.lm_forward_t(
        Some(&src),
        Cache::OtherModelCache,
        None,
        None,
        None,
        None,
        None,
        Some(&dec),
        false,
    );
    match r {
        Err(ModelError::ValueError(msg)) => {
            assert_eq!(msg, "Cache not compatible with T5 Model");
        },
        Ok(_) => panic!("an incompatible cache must be refused"),
    }
}

#[test]
fn adapter_wraps_next_cache() {
    let model = zero_model();
    let src = vec![vec![0i64, 1, 2, 3]];
    let dec = vec![vec![5i64]];
    let r = model
        .lm_forward_t(
            Some(&src),
            Cache::Empty,
            None,
            None,
            None,
            None,
            None,
            Some(&dec),
            false,
        )
        .expect("an empty cache decodes from scratch");
    match r.cache {
        Cache::T5Cache(Some(states)) => assert_eq!(states.len(), 2),
        _ => panic!("the next cache must come back as a T5 cache"),
    }
    assert_eq!(r.lm_logits[0][0].len(), 32);
}

#[test]
fn logits_scaling_exact() {
    // With zero projections the decoder hidden state is the embedded token
    // [t + 1, 0, ...]; the score for entry v is (v + 1) * (t + 1), divided by
    // isqrt(16) = 4.
    let model = zero_model();
    let src = vec![vec![0i64, 1, 2, 3]];
    let dec = vec![vec![5i64]];
    let out = model.forward_t(
        Some(&src),
        None,
        None,
        Some(&dec),
        None,
        None,
        None,
        None,
        false,
    );
    let logits = &out.decoder_output[0][0];
    assert_eq!(logits[0], 6 / 4);
    assert_eq!(logits[1], 12 / 4);
    assert_eq!(logits[2], 18 / 4);
    assert_eq!(logits[31], 192 / 4);
}

#[test]
fn encoder_reuse_matches_end_to_end() {
    let model = identity_model();
    let src = vec![vec![0i64, 1, 2, 3]];
    let dec = vec![vec![5i64]];
    let end_to_end = model.forward_t(
        Some(&src),
        None,
        None,
        Some(&dec),
        None,
        None,
        None,
        None,
        false,
    );
    let enc = model.encode(&src, None);
    assert_eq!(
        enc,
        end_to_end.encoder_hidden_state.clone().expect("encoding ran"),
    );
    let reused = model.forward_t(
        Some(&src),
        None,
        Some(&enc),
        Some(&dec),
        None,
        None,
        None,
        None,
        false,
    );
    assert_eq!(reused.decoder_output, end_to_end.decoder_output);
}

#[test]
fn encoder_hidden_absent_iff_supplied() {
    let model = identity_model();
    let src = vec![vec![0i64, 1, 2, 3]];
    let dec = vec![vec![5i64]];
    let computed = model.forward_t(
        Some(&src),
        None,
        None,
        Some(&dec),
        None,
        None,
        None,
        None,
        false,
    );
    assert!(computed.encoder_hidden_state.is_some());
    let enc = computed.encoder_hidden_state.unwrap();
    let supplied = model.forward_t(
        Some(&src),
        None,
        Some(&enc),
        Some(&dec),
        None,
        None,
        None,
        None,
        false,
    );
    assert!(supplied.encoder_hidden_state.is_none());
}

#[test]
fn cache_no_drift_one_step() {
    let model = identity_model();
    let src = vec![vec![0i64, 1, 2, 3]];
    let enc = model.encode(&src, None);

    // Full pass over both decoder tokens at once.
    let dec_full = vec![vec![3i64, 5]];
    let full = model.forward_t(
        None,
        None,
        Some(&enc),
        Some(&dec_full),
        None,
        None,
        None,
        None,
        false,
    );

    // First one token without a cache, then the next with the returned cache.
    let dec1 = vec![vec![3i64]];
    let first = model.forward_t(
        None,
        None,
        Some(&enc),
        Some(&dec1),
        None,
        None,
        None,
        None,
        false,
    );
    let cache = first.next_cache.expect("cache present");
    let dec2 = vec![vec![5i64]];
    let second = model.forward_t(
        None,
        None,
        Some(&enc),
        Some(&dec2),
        None,
        None,
        None,
        Some(cache),
        false,
    );

    assert_eq!(first.decoder_output[0][0], full.decoder_output[0][0]);
    assert_eq!(second.decoder_output[0][0], full.decoder_output[0][1]);
}

#[test]
fn stack_rejects_ambiguous_inputs() {
    let config = small_config();
    let w = build_weights(&config, &zero_mat(16, 16));
    let stack = T5Stack::new(w.encoder_layers, &config, false, false, false, false);
    let embeddings = Embedding { ws: w.shared };
    let ids = vec![vec![0i64, 1]];
    let embeds = vec![vec![vec![0i64; 16]; 2]];
    let both = stack.forward_t(
        Some(&ids),
        None,
        None,
        None,
        Some(embeds),
        &embeddings,
        None,
        false,
    );
    assert!(both.is_err());
    let neither = stack.forward_t(None, None, None, None, None, &embeddings, None, false);
    assert!(neither.is_err());
    let one = stack.forward_t(
        Some(&ids),
        None,
        None,
        None,
        None,
        &embeddings,
        None,
        false,
    );
    assert!(one.is_ok());
}

#[test]
fn all_ones_mask_equals_no_mask() {
    let model = identity_model();
    let src = vec![vec![0i64, 1, 2, 3]];
    let dec = vec![vec![5i64]];
    let ones = vec![vec![1i64, 1, 1, 1]];
    let masked = model.forward_t(
        Some(&src),
        Some(&ones),
        None,
        Some(&dec),
        None,
        None,
        None,
        None,
        false,
    );
    let unmasked = model.forward_t(
        Some(&src),
        None,
        None,
        Some(&dec),
        None,
        None,
        None,
        None,
        false,
    );
    assert_eq!(masked.decoder_output, unmasked.decoder_output);
    assert_eq!(masked.encoder_hidden_state, unmasked.encoder_hidden_state);
}

#[test]
fn zero_mask_changes_output() {
    let model = identity_model();
    let src = vec![vec![0i64, 1, 2, 3]];
    let dec = vec![vec![5i64]];
    let zeros = vec![vec![0i64, 0, 0, 0]];
    let masked = model.forward_t(
        Some(&src),
        Some(&zeros),
        None,
        Some(&dec),
        None,
        None,
        None,
        None,
        false,
    );
    let unmasked = model.forward_t(
        Some(&src),
        None,
        None,
        Some(&dec),
        None,
        None,
        None,
        None,
        false,
    );
    assert_ne!(masked.decoder_output, unmasked.decoder_output);
}

#[test]
fn batch_rows_are_independent() {
    let model = identity_model();
    let src = vec![vec![0i64, 1, 2, 3], vec![4i64, 5, 6, 7]];
    let dec = vec![vec![5i64], vec![9i64]];
    let both = model.forward_t(
        Some(&src),
        None,
        None,
        Some(&dec),
        None,
        None,
        None,
        None,
        false,
    );
    assert_eq!(both.decoder_output.len(), 2);
    let src0 = vec![src[0].clone()];
    let dec0 = vec![dec[0].clone()];
    let alone = model.forward_t(
        Some(&src0),
        None,
        None,
        Some(&dec0),
        None,
        None,
        None,
        None,
        false,
    );
    assert_eq!(both.decoder_output[0], alone.decoder_output[0]);
    let src1 = vec![src[1].clone()];
    let dec1 = vec![dec[1].clone()];
    let alone1 = model.forward_t(
        Some(&src1),
        None,
        None,
        Some(&dec1),
        None,
        None,
        None,
        None,
        false,
    );
    assert_eq!(both.decoder_output[1], alone1.decoder_output[0]);
}

#[test]
fn decoder_embeds_match_embedded_ids() {
    let model = identity_model();
    let src = vec![vec![0i64, 1, 2, 3]];
    let dec_ids = vec![vec![5i64]];
    // Row 5 of the table is [6, 0, ...].
    let mut row = vec![0i64; 16];
    row[0] = 6;
    let dec_embeds = vec![vec![row]];
    let via_ids = model.forward_t(
        Some(&src),
        None,
        None,
        Some(&dec_ids),
        None,
        None,
        None,
        None,
        false,
    );
    let via_embeds = model.forward_t(
        Some(&src),
        None,
        None,
        None,
        None,
        None,
        Some(dec_embeds),
        None,
        false,
    );
    assert_eq!(via_ids.decoder_output, via_embeds.decoder_output);
}

#[test]
fn pretrained_resource_names() {
    assert_eq!(T5ModelResources::T5_SMALL.0, "t5-small/model");
    assert_eq!(T5ConfigResources::T5_BASE.0, "t5-base/config");
    assert_eq!(T5VocabResources::T5_SMALL.0, "t5-small/spiece");
    assert_eq!(T5Prefix::ENGLISH2FRENCH, "translate English to French:");
}
