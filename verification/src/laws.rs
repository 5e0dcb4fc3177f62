//! The laws of the orchestration layer: reusing a precomputed encoder output
//! is lossless, and incremental decoding through the key/value cache drifts
//! from the full computation by nothing at all.

use vstd::prelude::*;

use crate::attention::{dec_layer_out, AttnView, DecLayerCtx, LayerState};
use crate::encoder::{
    dec_ctx_step, dec_ctxs, dec_hidden, dec_next_ctxs, lemma_dec_next_ctxs_index,
    lemma_dec_next_ctxs_len, StackLayer,
};
use crate::linalg::{lemma_vsum_upto_prefix, proj_seq, Tensor2, Tensor3};
use crate::t5_model::{logits_rows, T5Model};

verus! {

/// Projecting a concatenation projects each part.
pub proof fn lemma_proj_seq_append(m: Seq<Seq<i64>>, xs1: Seq<Seq<i64>>, xs2: Seq<Seq<i64>>)
    ensures
        proj_seq(m, xs1 + xs2) == proj_seq(m, xs1) + proj_seq(m, xs2),
{
    assert(proj_seq(m, xs1 + xs2) =~= proj_seq(m, xs1) + proj_seq(m, xs2));
}

/// One decoder layer is incremental: decoding `xs2` with the cache left by
/// `xs1` equals the tail of decoding `xs1 + xs2` at once, and the head of
/// the full decode equals decoding `xs1` alone.
pub proof fn lemma_dec_layer_incremental(
    sw: AttnView,
    cw: AttnView,
    past_vals: Seq<Seq<i64>>,
    cross_vals: Seq<Seq<i64>>,
    mask: Option<Seq<i64>>,
    xs1: Seq<Seq<i64>>,
    xs2: Seq<Seq<i64>>,
)
    ensures
        dec_layer_out(sw, cw, past_vals + proj_seq(sw.wv, xs1), cross_vals, mask, xs2)
            == dec_layer_out(sw, cw, past_vals, cross_vals, mask, xs1 + xs2).skip(
            xs1.len() as int,
        ),
        dec_layer_out(sw, cw, past_vals, cross_vals, mask, xs1 + xs2).take(xs1.len() as int)
            == dec_layer_out(sw, cw, past_vals, cross_vals, mask, xs1),
{
    let p = past_vals.len() as int;
    let n1 = xs1.len() as int;
    let full = dec_layer_out(sw, cw, past_vals, cross_vals, mask, xs1 + xs2);
    let step = dec_layer_out(sw, cw, past_vals + proj_seq(sw.wv, xs1), cross_vals, mask, xs2);
    let first = dec_layer_out(sw, cw, past_vals, cross_vals, mask, xs1);
    lemma_proj_seq_append(sw.wv, xs1, xs2);
    let all_full = past_vals + proj_seq(sw.wv, xs1 + xs2);
    let all_step = (past_vals + proj_seq(sw.wv, xs1)) + proj_seq(sw.wv, xs2);
    assert(all_full =~= all_step);
    let all_first = past_vals + proj_seq(sw.wv, xs1);
    assert forall|t: int| 0 <= t < xs2.len() implies step[t] == full[n1 + t] by {
        assert((xs1 + xs2)[n1 + t] == xs2[t]);
    }
    assert(step =~= full.skip(n1));
    assert forall|t: int| 0 <= t < n1 implies full[t] == first[t] by {
        assert((xs1 + xs2)[t] == xs1[t]);
        assert forall|i: int| 0 <= i < p + t + 1 implies all_full[i] == all_first[i] by {
            if i >= p {
                assert(proj_seq(sw.wv, xs1 + xs2)[i - p] == proj_seq(sw.wv, xs1)[i - p]);
            }
        }
        lemma_vsum_upto_prefix(sw.wv.len(), all_full, all_first, p + t + 1);
    }
    assert(full.take(n1) =~= first);
}

/// The decoder stack is incremental: decoding `xs2` from the per-layer
/// contexts left by `xs1` yields the tail of decoding `xs1 + xs2` at once,
/// and leaves exactly the contexts of the full decode.
pub proof fn lemma_dec_stack_incremental(
    ctxs: Seq<DecLayerCtx>,
    mask: Option<Seq<i64>>,
    xs1: Seq<Seq<i64>>,
    xs2: Seq<Seq<i64>>,
)
    ensures
        dec_hidden(dec_next_ctxs(ctxs, mask, xs1), mask, xs2) == dec_hidden(
            ctxs,
            mask,
            xs1 + xs2,
        ).skip(xs1.len() as int),
        dec_next_ctxs(dec_next_ctxs(ctxs, mask, xs1), mask, xs2) == dec_next_ctxs(
            ctxs,
            mask,
            xs1 + xs2,
        ),
    decreases ctxs.len(),
{
    let n1 = xs1.len() as int;
    if ctxs.len() == 0 {
        assert(dec_next_ctxs(ctxs, mask, xs1) =~= Seq::<DecLayerCtx>::empty());
        assert((xs1 + xs2).skip(n1) =~= xs2);
        assert(dec_next_ctxs(dec_next_ctxs(ctxs, mask, xs1), mask, xs2) =~= dec_next_ctxs(
            ctxs,
            mask,
            xs1 + xs2,
        ));
    } else {
        let c = ctxs[0];
        let tail = ctxs.skip(1);
        let y1 = dec_layer_out(c.sw, c.cw, c.past_vals, c.cross_vals, mask, xs1);
        let yfull = dec_layer_out(c.sw, c.cw, c.past_vals, c.cross_vals, mask, xs1 + xs2);
        let y2 = dec_layer_out(
            c.sw,
            c.cw,
            c.past_vals + proj_seq(c.sw.wv, xs1),
            c.cross_vals,
            mask,
            xs2,
        );
        lemma_dec_layer_incremental(c.sw, c.cw, c.past_vals, c.cross_vals, mask, xs1, xs2);
        assert(y1 + y2 =~= yfull);
        let nc1 = dec_next_ctxs(ctxs, mask, xs1);
        assert(nc1[0] == dec_ctx_step(c, xs1));
        assert(nc1.skip(1) =~= dec_next_ctxs(tail, mask, y1));
        assert(dec_ctx_step(c, xs1).past_vals == c.past_vals + proj_seq(c.sw.wv, xs1));
        lemma_dec_stack_incremental(tail, mask, y1, y2);
        assert(y1.len() == xs1.len());

        // Hidden states.
        assert(dec_hidden(nc1, mask, xs2) == dec_hidden(dec_next_ctxs(tail, mask, y1), mask, y2));
        assert(dec_hidden(ctxs, mask, xs1 + xs2) == dec_hidden(tail, mask, yfull));
        assert(dec_hidden(nc1, mask, xs2) == dec_hidden(tail, mask, yfull).skip(n1));

        // Next contexts.
        let lhs = dec_next_ctxs(nc1, mask, xs2);
        let rhs = dec_next_ctxs(ctxs, mask, xs1 + xs2);
        lemma_proj_seq_append(c.sw.wk, xs1, xs2);
        lemma_proj_seq_append(c.sw.wv, xs1, xs2);
        assert(dec_ctx_step(dec_ctx_step(c, xs1), xs2).past_keys =~= dec_ctx_step(
            c,
            xs1 + xs2,
        ).past_keys);
        assert(dec_ctx_step(dec_ctx_step(c, xs1), xs2).past_vals =~= dec_ctx_step(
            c,
            xs1 + xs2,
        ).past_vals);
        assert(dec_ctx_step(dec_ctx_step(c, xs1), xs2) == dec_ctx_step(c, xs1 + xs2));
        assert(lhs == seq![dec_ctx_step(nc1[0], xs2)] + dec_next_ctxs(nc1.skip(1), mask, y2));
        assert(dec_next_ctxs(nc1.skip(1), mask, y2) == dec_next_ctxs(tail, mask, yfull));
        assert(lhs =~= rhs);
    }
}

/// Across one decode step every layer's cross-attention cache is unchanged,
/// while its self-attention cache grows by exactly the new positions.
pub proof fn lemma_cache_growth(
    ctxs: Seq<DecLayerCtx>,
    mask: Option<Seq<i64>>,
    xs: Seq<Seq<i64>>,
    l: int,
)
    requires
        0 <= l < ctxs.len(),
    ensures
        dec_next_ctxs(ctxs, mask, xs)[l].cross_keys == ctxs[l].cross_keys,
        dec_next_ctxs(ctxs, mask, xs)[l].cross_vals == ctxs[l].cross_vals,
        dec_next_ctxs(ctxs, mask, xs)[l].past_keys.len() == ctxs[l].past_keys.len() + xs.len(),
        dec_next_ctxs(ctxs, mask, xs)[l].past_vals.len() == ctxs[l].past_vals.len() + xs.len(),
    decreases ctxs.len(),
{
    lemma_dec_next_ctxs_index(ctxs, mask, xs, l);
    crate::encoder::lemma_dec_hidden_len(ctxs.take(l), mask, xs);
}

/// The contexts a later call builds from a returned cache are exactly the
/// contexts the earlier call left behind.
pub proof fn lemma_ctxs_from_next_cache(
    layers: Seq<StackLayer>,
    cache2: Seq<(Option<LayerState>, Option<LayerState>)>,
    enc_b: Seq<Seq<i64>>,
    b: int,
    ctxs0: Seq<DecLayerCtx>,
    mask: Option<Seq<i64>>,
    xs1: Seq<Seq<i64>>,
)
    requires
        ctxs0 == dec_ctxs(layers, Option::None, enc_b, b),
        cache2.len() == layers.len(),
        forall|l: int|
            0 <= l < cache2.len() ==> (#[trigger] cache2[l]).0 is Some && cache2[l].1 is Some,
        forall|l: int|
            0 <= l < cache2.len() ==> (#[trigger] cache2[l].0.unwrap()@.keys[b]) == dec_next_ctxs(
                ctxs0,
                mask,
                xs1,
            )[l].past_keys,
        forall|l: int|
            0 <= l < cache2.len() ==> (#[trigger] cache2[l].0.unwrap()@.vals[b]) == dec_next_ctxs(
                ctxs0,
                mask,
                xs1,
            )[l].past_vals,
        forall|l: int|
            0 <= l < cache2.len() ==> (#[trigger] cache2[l].1.unwrap()@.keys[b]) == dec_next_ctxs(
                ctxs0,
                mask,
                xs1,
            )[l].cross_keys,
        forall|l: int|
            0 <= l < cache2.len() ==> (#[trigger] cache2[l].1.unwrap()@.vals[b]) == dec_next_ctxs(
                ctxs0,
                mask,
                xs1,
            )[l].cross_vals,
    ensures
        dec_ctxs(layers, Option::Some(cache2), enc_b, b) == dec_next_ctxs(ctxs0, mask, xs1),
{
    lemma_dec_next_ctxs_len(ctxs0, mask, xs1);
    assert forall|l: int| 0 <= l < layers.len() implies dec_ctxs(
        layers,
        Option::Some(cache2),
        enc_b,
        b,
    )[l] == dec_next_ctxs(ctxs0, mask, xs1)[l] by {
        lemma_dec_next_ctxs_index(ctxs0, mask, xs1, l);
        assert(dec_next_ctxs(ctxs0, mask, xs1)[l] == dec_ctx_step(
            ctxs0[l],
            dec_hidden(ctxs0.take(l), mask, xs1),
        ));
        assert(ctxs0[l].sw == layers[l].self_attention@);
        assert(ctxs0[l].cw == layers[l].cross_attention.unwrap()@);
    }
    assert(dec_ctxs(layers, Option::Some(cache2), enc_b, b) =~= dec_next_ctxs(ctxs0, mask, xs1));
}

/// Cache correctness, no drift: for one batch element, decoding the new
/// positions `xs2` against the cache returned by a first, cache-free call
/// over `xs1` produces exactly the hidden states that a single cache-free
/// call over `xs1 + xs2` produces at those positions.
pub proof fn lemma_cache_no_drift(
    layers: Seq<StackLayer>,
    cache2: Seq<(Option<LayerState>, Option<LayerState>)>,
    enc_b: Seq<Seq<i64>>,
    b: int,
    mask: Option<Seq<i64>>,
    xs1: Seq<Seq<i64>>,
    xs2: Seq<Seq<i64>>,
)
    requires
        cache2.len() == layers.len(),
        forall|l: int|
            0 <= l < cache2.len() ==> (#[trigger] cache2[l]).0 is Some && cache2[l].1 is Some,
        forall|l: int|
            0 <= l < cache2.len() ==> (#[trigger] cache2[l].0.unwrap()@.keys[b]) == dec_next_ctxs(
                dec_ctxs(layers, Option::None, enc_b, b),
                mask,
                xs1,
            )[l].past_keys,
        forall|l: int|
            0 <= l < cache2.len() ==> (#[trigger] cache2[l].0.unwrap()@.vals[b]) == dec_next_ctxs(
                dec_ctxs(layers, Option::None, enc_b, b),
                mask,
                xs1,
            )[l].past_vals,
        forall|l: int|
            0 <= l < cache2.len() ==> (#[trigger] cache2[l].1.unwrap()@.keys[b]) == dec_next_ctxs(
                dec_ctxs(layers, Option::None, enc_b, b),
                mask,
                xs1,
            )[l].cross_keys,
        forall|l: int|
            0 <= l < cache2.len() ==> (#[trigger] cache2[l].1.unwrap()@.vals[b]) == dec_next_ctxs(
                dec_ctxs(layers, Option::None, enc_b, b),
                mask,
                xs1,
            )[l].cross_vals,
    ensures
        dec_hidden(dec_ctxs(layers, Option::Some(cache2), enc_b, b), mask, xs2) == dec_hidden(
            dec_ctxs(layers, Option::None, enc_b, b),
            mask,
            xs1 + xs2,
        ).skip(xs1.len() as int),
{
    let ctxs0 = dec_ctxs(layers, Option::None, enc_b, b);
    lemma_ctxs_from_next_cache(layers, cache2, enc_b, b, ctxs0, mask, xs1);
    lemma_dec_stack_incremental(ctxs0, mask, xs1, xs2);
}

/// Cache correctness at the logits level: under the conditional-generation
/// head, the incremental call's logits are exactly the full call's logits at
/// the overlapping positions.
pub proof fn lemma_cache_no_drift_logits(
    table: Seq<Seq<i64>>,
    d_model: int,
    layers: Seq<StackLayer>,
    cache2: Seq<(Option<LayerState>, Option<LayerState>)>,
    enc_b: Seq<Seq<i64>>,
    b: int,
    mask: Option<Seq<i64>>,
    xs1: Seq<Seq<i64>>,
    xs2: Seq<Seq<i64>>,
)
    requires
        cache2.len() == layers.len(),
        forall|l: int|
            0 <= l < cache2.len() ==> (#[trigger] cache2[l]).0 is Some && cache2[l].1 is Some,
        forall|l: int|
            0 <= l < cache2.len() ==> (#[trigger] cache2[l].0.unwrap()@.keys[b]) == dec_next_ctxs(
                dec_ctxs(layers, Option::None, enc_b, b),
                mask,
                xs1,
            )[l].past_keys,
        forall|l: int|
            0 <= l < cache2.len() ==> (#[trigger] cache2[l].0.unwrap()@.vals[b]) == dec_next_ctxs(
                dec_ctxs(layers, Option::None, enc_b, b),
                mask,
                xs1,
            )[l].past_vals,
        forall|l: int|
            0 <= l < cache2.len() ==> (#[trigger] cache2[l].1.unwrap()@.keys[b]) == dec_next_ctxs(
                dec_ctxs(layers, Option::None, enc_b, b),
                mask,
                xs1,
            )[l].cross_keys,
        forall|l: int|
            0 <= l < cache2.len() ==> (#[trigger] cache2[l].1.unwrap()@.vals[b]) == dec_next_ctxs(
                dec_ctxs(layers, Option::None, enc_b, b),
                mask,
                xs1,
            )[l].cross_vals,
    ensures
        logits_rows(
            table,
            dec_hidden(dec_ctxs(layers, Option::Some(cache2), enc_b, b), mask, xs2),
            d_model,
        ) == logits_rows(
            table,
            dec_hidden(dec_ctxs(layers, Option::None, enc_b, b), mask, xs1 + xs2),
            d_model,
        ).skip(xs1.len() as int),
{
    lemma_cache_no_drift(layers, cache2, enc_b, b, mask, xs1, xs2);
    let n1 = xs1.len() as int;
    let step_h = dec_hidden(dec_ctxs(layers, Option::Some(cache2), enc_b, b), mask, xs2);
    let full_h = dec_hidden(dec_ctxs(layers, Option::None, enc_b, b), mask, xs1 + xs2);
    crate::encoder::lemma_dec_hidden_len(dec_ctxs(layers, Option::None, enc_b, b), mask, xs1 + xs2);
    assert(step_h.len() == full_h.len() - n1);
    assert forall|t: int| 0 <= t < step_h.len() implies logits_rows(table, step_h, d_model)[t]
        == logits_rows(table, full_h, d_model).skip(n1)[t] by {
        assert(step_h[t] == full_h.skip(n1)[t]);
        assert(full_h.skip(n1)[t] == full_h[n1 + t]);
    }
    assert(logits_rows(table, step_h, d_model) =~= logits_rows(table, full_h, d_model).skip(n1));
}

/// Encoder-output reuse is lossless: handing a forward pass the encoder
/// hidden state that `encode` computed puts the decoder in exactly the state
/// of a single end-to-end call, so every decoder output and cache entry
/// coincides.
pub proof fn lemma_encoder_reuse_lossless(
    model: &T5Model,
    precomputed: &Tensor3,
    input_ids: Option<&Tensor2>,
    input_embeds: Option<Tensor3>,
    attention_mask: Option<&Tensor2>,
)
    requires
        precomputed.deep_view() == model.eff_encoder_view(
            Option::None,
            input_ids,
            input_embeds,
            attention_mask,
        ),
    ensures
        model.eff_encoder_view(
            Option::Some(precomputed),
            input_ids,
            input_embeds,
            attention_mask,
        ) == model.eff_encoder_view(Option::None, input_ids, input_embeds, attention_mask),
{
}

} // verus!
