//! The transformer stack: an ordered sequence of layers, run as an encoder
//! (stateless, bidirectional) or as a decoder (causal self-attention with a
//! per-layer key/value cache, plus cross-attention over the encoder output).

use vstd::prelude::*;

use crate::attention::{
    attn_wf, dec_layer_batch, dec_layer_out, enc_layer_batch, enc_layer_out, AttnView,
    AttnWeights, DecLayerCtx, LayerState,
};
use crate::linalg::{copy_row, mat_wf, proj_seq, Tensor2, Tensor3};
use crate::config::T5Config;
use crate::ModelError;

verus! {

/// The shared token embedding table: one row of model width per vocabulary
/// entry.
pub struct Embedding {
    /// The weight matrix, `vocab_size x d_model`.
    pub ws: Tensor2,
}

impl Embedding {
    /// The table has one row of width `d_model` per vocabulary entry.
    pub open spec fn wf(&self, vocab: nat, d_model: nat) -> bool {
        mat_wf(self.ws.deep_view(), vocab, d_model)
    }
}

/// Every id indexes a row of the table.
pub open spec fn ids_wf(ids: Seq<i64>, vocab: int) -> bool {
    forall|i: int| 0 <= i < ids.len() ==> 0 <= #[trigger] ids[i] < vocab
}

/// Every row of a batch of token ids indexes the table.
pub open spec fn tokens_wf(t: Seq<Seq<i64>>, vocab: int) -> bool {
    forall|b: int| 0 <= b < t.len() ==> ids_wf(#[trigger] t[b], vocab)
}

/// Row lookup: the table row of each id, in order.
pub open spec fn embed_seq(table: Seq<Seq<i64>>, ids: Seq<i64>) -> Seq<Seq<i64>> {
    Seq::new(ids.len(), |i: int| table[ids[i] as int])
}

/// Row lookup for one batch element.
pub fn embed_row(emb: &Embedding, ids: &Vec<i64>) -> (r: Vec<Vec<i64>>)
    requires
        ids_wf(ids@, emb.ws@.len() as int),
    ensures
        r.deep_view() == embed_seq(emb.ws.deep_view(), ids@),
        r@.len() == ids@.len(),
        forall|i: int| 0 <= i < r@.len() ==> (#[trigger] r@[i])@ == emb.ws.deep_view()[ids@[i] as int],
{
    broadcast use crate::linalg::lemma_row_deep_view;

    let mut r: Vec<Vec<i64>> = Vec::new();
    let mut i: usize = 0;
    while i < ids.len()
        invariant
            i <= ids@.len(),
            r@.len() == i,
            forall|k: int| 0 <= k < i ==> (#[trigger] r@[k])@ == emb.ws.deep_view()[ids@[k] as int],
        decreases ids@.len() - i,
    {
        proof {
            assert(0 <= ids@[i as int] < emb.ws@.len());
            assert(emb.ws.deep_view()[ids@[i as int] as int] == emb.ws@[ids@[i as int] as int]@);
        }
        let id: i64 = ids[i];
        let vocab: usize = emb.ws.len();
        assert(0 <= id < vocab);
        let row = copy_row(&emb.ws[id as usize]);
        proof {
            assert(id as usize as int == ids@[i as int] as int);
            assert(row@ == emb.ws.deep_view()[ids@[i as int] as int]);
        }
        r.push(row);
        i += 1;
    }
    assert(r.deep_view() =~= embed_seq(emb.ws.deep_view(), ids@));
    r
}

/// One layer of a stack: self-attention weights, and cross-attention weights
/// in a decoder.
pub struct StackLayer {
    /// Self-attention weights.
    pub self_attention: AttnWeights,
    /// Cross-attention weights; present exactly in decoder layers.
    pub cross_attention: Option<AttnWeights>,
}

/// The self-attention views of a stack's layers, in order.
pub open spec fn enc_views(layers: Seq<StackLayer>) -> Seq<AttnView> {
    layers.map_values(|sl: StackLayer| sl.self_attention@)
}

/// The encoder: each layer applied in order.
pub open spec fn enc_hidden(
    ws: Seq<AttnView>,
    mask: Option<Seq<i64>>,
    xs: Seq<Seq<i64>>,
) -> Seq<Seq<i64>>
    decreases ws.len(),
{
    if ws.len() == 0 {
        xs
    } else {
        enc_hidden(ws.skip(1), mask, enc_layer_out(ws[0], mask, xs))
    }
}

/// Appending a layer applies it after the existing stack.
pub proof fn lemma_enc_hidden_snoc(
    ws: Seq<AttnView>,
    w: AttnView,
    mask: Option<Seq<i64>>,
    xs: Seq<Seq<i64>>,
)
    ensures
        enc_hidden(ws.push(w), mask, xs) == enc_layer_out(w, mask, enc_hidden(ws, mask, xs)),
    decreases ws.len(),
{
    if ws.len() == 0 {
        assert(ws.push(w).skip(1) =~= Seq::<AttnView>::empty());
        assert(ws.push(w)[0] == w);
        assert(enc_hidden(ws.push(w), mask, xs) == enc_hidden(
            ws.push(w).skip(1),
            mask,
            enc_layer_out(w, mask, xs),
        ));
        assert(enc_hidden(ws.push(w).skip(1), mask, enc_layer_out(w, mask, xs)) == enc_layer_out(
            w,
            mask,
            xs,
        ));
        assert(enc_hidden(ws, mask, xs) == xs);
    } else {
        assert(ws.push(w).skip(1) =~= ws.skip(1).push(w));
        assert(ws.push(w)[0] == ws[0]);
        let y = enc_layer_out(ws[0], mask, xs);
        lemma_enc_hidden_snoc(ws.skip(1), w, mask, y);
        assert(enc_hidden(ws.push(w), mask, xs) == enc_hidden(ws.skip(1).push(w), mask, y));
        assert(enc_hidden(ws, mask, xs) == enc_hidden(ws.skip(1), mask, y));
    }
}

/// The decoder over the new positions: each layer applied in order, each with
/// its own cached and cross-attention projections.
pub open spec fn dec_hidden(
    ctxs: Seq<DecLayerCtx>,
    mask: Option<Seq<i64>>,
    xs: Seq<Seq<i64>>,
) -> Seq<Seq<i64>>
    decreases ctxs.len(),
{
    if ctxs.len() == 0 {
        xs
    } else {
        let c = ctxs[0];
        dec_hidden(
            ctxs.skip(1),
            mask,
            dec_layer_out(c.sw, c.cw, c.past_vals, c.cross_vals, mask, xs),
        )
    }
}

/// Appending a layer applies it after the existing stack.
pub proof fn lemma_dec_hidden_snoc(
    ctxs: Seq<DecLayerCtx>,
    c: DecLayerCtx,
    mask: Option<Seq<i64>>,
    xs: Seq<Seq<i64>>,
)
    ensures
        dec_hidden(ctxs.push(c), mask, xs) == dec_layer_out(
            c.sw,
            c.cw,
            c.past_vals,
            c.cross_vals,
            mask,
            dec_hidden(ctxs, mask, xs),
        ),
    decreases ctxs.len(),
{
    if ctxs.len() == 0 {
        assert(ctxs.push(c).skip(1) =~= Seq::<DecLayerCtx>::empty());
        assert(ctxs.push(c)[0] == c);
        assert(dec_hidden(ctxs.push(c), mask, xs) == dec_hidden(
            ctxs.push(c).skip(1),
            mask,
            dec_layer_out(c.sw, c.cw, c.past_vals, c.cross_vals, mask, xs),
        ));
        assert(dec_hidden(
            ctxs.push(c).skip(1),
            mask,
            dec_layer_out(c.sw, c.cw, c.past_vals, c.cross_vals, mask, xs),
        ) == dec_layer_out(c.sw, c.cw, c.past_vals, c.cross_vals, mask, xs));
        assert(dec_hidden(ctxs, mask, xs) == xs);
    } else {
        assert(ctxs.push(c).skip(1) =~= ctxs.skip(1).push(c));
        assert(ctxs.push(c)[0] == ctxs[0]);
        let c0 = ctxs[0];
        let y = dec_layer_out(c0.sw, c0.cw, c0.past_vals, c0.cross_vals, mask, xs);
        lemma_dec_hidden_snoc(ctxs.skip(1), c, mask, y);
        assert(dec_hidden(ctxs.push(c), mask, xs) == dec_hidden(ctxs.skip(1).push(c), mask, y));
        assert(dec_hidden(ctxs, mask, xs) == dec_hidden(ctxs.skip(1), mask, y));
    }
}

/// The decoder keeps each sequence's length.
pub proof fn lemma_dec_hidden_len(
    ctxs: Seq<DecLayerCtx>,
    mask: Option<Seq<i64>>,
    xs: Seq<Seq<i64>>,
)
    ensures
        dec_hidden(ctxs, mask, xs).len() == xs.len(),
    decreases ctxs.len(),
{
    if ctxs.len() > 0 {
        let c = ctxs[0];
        lemma_dec_hidden_len(
            ctxs.skip(1),
            mask,
            dec_layer_out(c.sw, c.cw, c.past_vals, c.cross_vals, mask, xs),
        );
    }
}

/// A layer context after one decode step over `xs`: the self-attention cache
/// grows by the projections of `xs`, the cross-attention projections stay.
pub open spec fn dec_ctx_step(c: DecLayerCtx, xs: Seq<Seq<i64>>) -> DecLayerCtx {
    DecLayerCtx {
        past_keys: c.past_keys + proj_seq(c.sw.wk, xs),
        past_vals: c.past_vals + proj_seq(c.sw.wv, xs),
        ..c
    }
}

/// The per-layer contexts after one decode step: each layer's cache grows by
/// the projections of that layer's own input.
pub open spec fn dec_next_ctxs(
    ctxs: Seq<DecLayerCtx>,
    mask: Option<Seq<i64>>,
    xs: Seq<Seq<i64>>,
) -> Seq<DecLayerCtx>
    decreases ctxs.len(),
{
    if ctxs.len() == 0 {
        Seq::<DecLayerCtx>::empty()
    } else {
        let c = ctxs[0];
        seq![dec_ctx_step(c, xs)] + dec_next_ctxs(
            ctxs.skip(1),
            mask,
            dec_layer_out(c.sw, c.cw, c.past_vals, c.cross_vals, mask, xs),
        )
    }
}

/// A decode step yields one context per layer.
pub proof fn lemma_dec_next_ctxs_len(
    ctxs: Seq<DecLayerCtx>,
    mask: Option<Seq<i64>>,
    xs: Seq<Seq<i64>>,
)
    ensures
        dec_next_ctxs(ctxs, mask, xs).len() == ctxs.len(),
    decreases ctxs.len(),
{
    if ctxs.len() > 0 {
        let c = ctxs[0];
        lemma_dec_next_ctxs_len(
            ctxs.skip(1),
            mask,
            dec_layer_out(c.sw, c.cw, c.past_vals, c.cross_vals, mask, xs),
        );
    }
}

/// The view of an optional incoming cache.
pub open spec fn cache_view(
    c: Option<Vec<(Option<LayerState>, Option<LayerState>)>>,
) -> Option<Seq<(Option<LayerState>, Option<LayerState>)>> {
    match c {
        Option::Some(v) => Option::Some(v@),
        Option::None => Option::None,
    }
}

/// The view of an optional batched mask.
pub open spec fn t2_opt_view(m: Option<&Tensor2>) -> Option<Seq<Seq<i64>>> {
    match m {
        Option::Some(t) => Option::Some(t.deep_view()),
        Option::None => Option::None,
    }
}

/// Row `b` of an optional batched mask.
pub open spec fn mask_row2(m: Option<Seq<Seq<i64>>>, b: int) -> Option<Seq<i64>> {
    match m {
        Option::Some(rows) => Option::Some(rows[b]),
        Option::None => Option::None,
    }
}

/// A cache entry holds one matching key/value pair per batch element, all of
/// width `width`.
pub open spec fn self_state_wf(v: crate::attention::LayerStateV, batch: nat, width: nat) -> bool {
    &&& v.keys.len() == batch
    &&& v.vals.len() == batch
    &&& forall|b: int| 0 <= b < batch ==> (#[trigger] v.keys[b]).len() == v.vals[b].len()
    &&& forall|b: int| 0 <= b < batch ==> crate::linalg::rows_wf(#[trigger] v.keys[b], width)
    &&& forall|b: int| 0 <= b < batch ==> crate::linalg::rows_wf(#[trigger] v.vals[b], width)
}

/// Every present entry of an incoming cache is well-formed for this batch.
pub open spec fn cache_wf(
    c: Seq<(Option<LayerState>, Option<LayerState>)>,
    num_layers: nat,
    batch: nat,
    width: nat,
) -> bool {
    &&& c.len() == num_layers
    &&& forall|l: int|
        0 <= l < c.len() ==> ((#[trigger] c[l]).0 is Some ==> self_state_wf(
            c[l].0.unwrap()@,
            batch,
            width,
        ))
    &&& forall|l: int|
        0 <= l < c.len() ==> ((#[trigger] c[l]).1 is Some ==> self_state_wf(
            c[l].1.unwrap()@,
            batch,
            width,
        ))
}

/// Every cached cross-attention entry spans exactly the encoder output's
/// positions.
pub open spec fn cross_len_wf(
    c: Seq<(Option<LayerState>, Option<LayerState>)>,
    enc: Seq<Seq<Seq<i64>>>,
) -> bool {
    forall|l: int, b: int|
        #![trigger c[l].1.unwrap()@.vals[b]]
        (0 <= l < c.len() && 0 <= b < enc.len() && c[l].1 is Some) ==> c[l].1.unwrap()@.vals[b].len()
            == enc[b].len()
}

/// The per-layer, per-batch decoder contexts determined by the stack, the
/// incoming cache, and the encoder output: a missing self entry is an empty
/// past, a missing cross entry is recomputed from the encoder output.
pub open spec fn dec_ctxs(
    layers: Seq<StackLayer>,
    cache: Option<Seq<(Option<LayerState>, Option<LayerState>)>>,
    enc_b: Seq<Seq<i64>>,
    b: int,
) -> Seq<DecLayerCtx> {
    Seq::new(
        layers.len(),
        |l: int|
            {
                let sw = layers[l].self_attention@;
                let cw = layers[l].cross_attention.unwrap()@;
                let past = match cache {
                    Option::Some(c) => match c[l].0 {
                        Option::Some(ls) => (ls@.keys[b], ls@.vals[b]),
                        Option::None => (Seq::<Seq<i64>>::empty(), Seq::<Seq<i64>>::empty()),
                    },
                    Option::None => (Seq::<Seq<i64>>::empty(), Seq::<Seq<i64>>::empty()),
                };
                let cross = match cache {
                    Option::Some(c) => match c[l].1 {
                        Option::Some(ls) => (ls@.keys[b], ls@.vals[b]),
                        Option::None => (proj_seq(cw.wk, enc_b), proj_seq(cw.wv, enc_b)),
                    },
                    Option::None => (proj_seq(cw.wk, enc_b), proj_seq(cw.wv, enc_b)),
                };
                DecLayerCtx {
                    sw,
                    cw,
                    past_keys: past.0,
                    past_vals: past.1,
                    cross_keys: cross.0,
                    cross_vals: cross.1,
                }
            },
    )
}

/// Entry `k` of a decode step: layer `k`'s context, stepped over layer `k`'s
/// input, which is the output of the first `k` layers.
pub proof fn lemma_dec_next_ctxs_index(
    ctxs: Seq<DecLayerCtx>,
    mask: Option<Seq<i64>>,
    xs: Seq<Seq<i64>>,
    k: int,
)
    requires
        0 <= k < ctxs.len(),
    ensures
        dec_next_ctxs(ctxs, mask, xs)[k] == dec_ctx_step(
            ctxs[k],
            dec_hidden(ctxs.take(k), mask, xs),
        ),
    decreases ctxs.len(),
{
    lemma_dec_next_ctxs_len(ctxs, mask, xs);
    let c = ctxs[0];
    let y = dec_layer_out(c.sw, c.cw, c.past_vals, c.cross_vals, mask, xs);
    if k == 0 {
        assert(ctxs.take(0) =~= Seq::<DecLayerCtx>::empty());
    } else {
        lemma_dec_next_ctxs_index(ctxs.skip(1), mask, y, k - 1);
        assert(ctxs.take(k).skip(1) =~= ctxs.skip(1).take(k - 1));
        assert(ctxs.take(k)[0] == ctxs[0]);
        assert(dec_hidden(ctxs.take(k), mask, xs) == dec_hidden(ctxs.skip(1).take(k - 1), mask, y));
    }
}

/// Exactly one of token ids and pre-computed embeddings is supplied.
pub open spec fn one_input(ids: Option<&Tensor2>, embeds: Option<Tensor3>) -> bool {
    (ids is Some) != (embeds is Some)
}

/// The decoder input as a batched tensor view: the supplied embeddings, or
/// the table rows of the supplied ids.
pub open spec fn resolved_view(
    ids: Option<&Tensor2>,
    embeds: Option<Tensor3>,
    table: Seq<Seq<i64>>,
) -> Seq<Seq<Seq<i64>>> {
    match embeds {
        Option::Some(e) => e.deep_view(),
        Option::None => match ids {
            Option::Some(t) => Seq::new(
                t.deep_view().len(),
                |b: int| embed_seq(table, t.deep_view()[b]),
            ),
            Option::None => Seq::<Seq<Seq<i64>>>::empty(),
        },
    }
}

/// What a decoder pass returns: each batch element's hidden state is the
/// stack denotation over the new positions, and each layer's outgoing cache
/// entry extends that layer's incoming cache by the projections of the
/// layer's own input.
pub open spec fn dec_forward_post(
    layers: Seq<StackLayer>,
    cache_in: Option<Seq<(Option<LayerState>, Option<LayerState>)>>,
    enc3: Seq<Seq<Seq<i64>>>,
    emask2: Option<Seq<Seq<i64>>>,
    x03: Seq<Seq<Seq<i64>>>,
    hidden3: Seq<Seq<Seq<i64>>>,
    out_cache: Seq<(Option<LayerState>, Option<LayerState>)>,
    d_model: nat,
    inner: nat,
) -> bool {
    &&& hidden3.len() == x03.len()
    &&& forall|b: int|
        0 <= b < x03.len() ==> #[trigger] hidden3[b] == dec_hidden(
            dec_ctxs(layers, cache_in, enc3[b], b),
            mask_row2(emask2, b),
            x03[b],
        )
    &&& forall|b: int|
        0 <= b < x03.len() ==> crate::linalg::rows_wf(#[trigger] hidden3[b], d_model)
    &&& out_cache.len() == layers.len()
    &&& forall|l: int|
        0 <= l < out_cache.len() ==> {
            &&& (#[trigger] out_cache[l]).0 is Some
            &&& out_cache[l].1 is Some
            &&& self_state_wf(out_cache[l].0.unwrap()@, x03.len(), inner)
            &&& self_state_wf(out_cache[l].1.unwrap()@, x03.len(), inner)
        }
    &&& forall|l: int, b: int|
        #![trigger out_cache[l].0.unwrap()@.keys[b]]
        (0 <= l < out_cache.len() && 0 <= b < x03.len()) ==> out_cache[l].0.unwrap()@.keys[b]
            == dec_next_ctxs(
            dec_ctxs(layers, cache_in, enc3[b], b),
            mask_row2(emask2, b),
            x03[b],
        )[l].past_keys
    &&& forall|l: int, b: int|
        #![trigger out_cache[l].0.unwrap()@.vals[b]]
        (0 <= l < out_cache.len() && 0 <= b < x03.len()) ==> out_cache[l].0.unwrap()@.vals[b]
            == dec_next_ctxs(
            dec_ctxs(layers, cache_in, enc3[b], b),
            mask_row2(emask2, b),
            x03[b],
        )[l].past_vals
    &&& forall|l: int, b: int|
        #![trigger out_cache[l].1.unwrap()@.keys[b]]
        (0 <= l < out_cache.len() && 0 <= b < x03.len()) ==> out_cache[l].1.unwrap()@.keys[b]
            == dec_next_ctxs(
            dec_ctxs(layers, cache_in, enc3[b], b),
            mask_row2(emask2, b),
            x03[b],
        )[l].cross_keys
    &&& forall|l: int, b: int|
        #![trigger out_cache[l].1.unwrap()@.vals[b]]
        (0 <= l < out_cache.len() && 0 <= b < x03.len()) ==> out_cache[l].1.unwrap()@.vals[b]
            == dec_next_ctxs(
            dec_ctxs(layers, cache_in, enc3[b], b),
            mask_row2(emask2, b),
            x03[b],
        )[l].cross_vals
}

/// What an encoder pass returns: each batch element's hidden state is the
/// encoder denotation.
pub open spec fn enc_forward_post(
    layers: Seq<StackLayer>,
    mask2: Option<Seq<Seq<i64>>>,
    x03: Seq<Seq<Seq<i64>>>,
    hidden3: Seq<Seq<Seq<i64>>>,
    d_model: nat,
) -> bool {
    &&& hidden3.len() == x03.len()
    &&& forall|b: int|
        0 <= b < x03.len() ==> #[trigger] hidden3[b] == enc_hidden(
            enc_views(layers),
            mask_row2(mask2, b),
            x03[b],
        )
    &&& forall|b: int|
        0 <= b < x03.len() ==> crate::linalg::rows_wf(#[trigger] hidden3[b], d_model)
}

/// What one stack pass returns.
pub struct T5StackOutput {
    /// The last layer's output, batch x positions x `d_model`.
    pub hidden_state: Tensor3,
    /// One `(self, cross)` cache pair per layer; produced by a decoder,
    /// absent from an encoder.
    pub next_cache: Option<Vec<(Option<LayerState>, Option<LayerState>)>>,
    /// Every layer's output, when requested.
    pub all_hidden_states: Option<Vec<Tensor3>>,
    /// Per-layer attention diagnostics, when requested. The reference kernel
    /// attends uniformly, so each entry is an empty tensor: the field only
    /// keeps the gating observable.
    pub all_attentions: Option<Vec<Tensor3>>,
}

/// A stack of transformer layers, run as encoder or decoder.
pub struct T5Stack {
    /// Whether this stack decodes (causal self-attention, cross-attention,
    /// cache) or encodes.
    pub is_decoder: bool,
    /// Whether a decoder pass returns its key/value cache.
    pub store_cache: bool,
    /// Whether forward passes report per-layer attention diagnostics.
    pub output_attentions: bool,
    /// Whether forward passes report per-layer hidden states.
    pub output_hidden_states: bool,
    /// Width of the residual stream.
    pub d_model: usize,
    /// Width of the key/value projections, `num_heads * d_kv`.
    pub inner: usize,
    /// The layers, in application order.
    pub layers: Vec<StackLayer>,
}

impl T5Stack {
    /// Every layer's weights fit the stack's widths, and cross-attention
    /// weights are present exactly in a decoder.
    pub open spec fn wf(&self) -> bool {
        &&& forall|l: int|
            0 <= l < self.layers@.len() ==> attn_wf(
                (#[trigger] self.layers@[l]).self_attention@,
                self.d_model as nat,
                self.inner as nat,
            )
        &&& forall|l: int|
            0 <= l < self.layers@.len() ==> ((#[trigger] self.layers@[l]).cross_attention is Some
                <==> self.is_decoder)
        &&& forall|l: int|
            0 <= l < self.layers@.len() ==> ((#[trigger] self.layers@[l]).cross_attention is Some
                ==> attn_wf(
                self.layers@[l].cross_attention.unwrap()@,
                self.d_model as nat,
                self.inner as nat,
            ))
    }

    /// Build a stack from its layer weights and the model configuration.
    pub fn new(
        layers: Vec<StackLayer>,
        config: &T5Config,
        is_decoder: bool,
        store_cache: bool,
        output_attentions: bool,
        output_hidden_states: bool,
    ) -> (r: T5Stack)
        requires
            config.wf(),
            config.d_model <= usize::MAX,
            config.num_heads * config.d_kv <= usize::MAX,
            layers@.len() == config.num_layers,
            forall|l: int|
                0 <= l < layers@.len() ==> attn_wf(
                    (#[trigger] layers@[l]).self_attention@,
                    config.d_model as nat,
                    (config.num_heads * config.d_kv) as nat,
                ),
            forall|l: int|
                0 <= l < layers@.len() ==> ((#[trigger] layers@[l]).cross_attention is Some
                    <==> is_decoder),
            forall|l: int|
                0 <= l < layers@.len() ==> ((#[trigger] layers@[l]).cross_attention is Some
                    ==> attn_wf(
                    layers@[l].cross_attention.unwrap()@,
                    config.d_model as nat,
                    (config.num_heads * config.d_kv) as nat,
                )),
        ensures
            r.wf(),
            r.layers == layers,
            r.is_decoder == is_decoder,
            r.store_cache == store_cache,
            r.output_attentions == output_attentions,
            r.output_hidden_states == output_hidden_states,
            r.d_model == config.d_model,
            r.inner == config.num_heads * config.d_kv,
    {
        proof {
            assert(config.num_heads <= config.num_heads * config.d_kv) by (nonlinear_arith)
                requires
                    1 <= config.d_kv,
                    0 <= config.num_heads,
            ;
            assert(config.d_kv <= config.num_heads * config.d_kv) by (nonlinear_arith)
                requires
                    1 <= config.num_heads,
                    0 <= config.d_kv,
            ;
        }
        let heads: usize = config.num_heads as usize;
        let kv: usize = config.d_kv as usize;
        T5Stack {
            is_decoder,
            store_cache,
            output_attentions,
            output_hidden_states,
            d_model: config.d_model as usize,
            inner: heads * kv,
            layers,
        }
    }

    /// One decoder pass over the already-embedded new positions.
    fn forward_decoder(
        &self,
        x0: Tensor3,
        enc: &Tensor3,
        emask: Option<&Tensor2>,
        layer_states: &Option<Vec<(Option<LayerState>, Option<LayerState>)>>,
    ) -> (r: (Tensor3, Vec<(Option<LayerState>, Option<LayerState>)>, Vec<Tensor3>))
        requires
            self.wf(),
            self.is_decoder,
            forall|b: int|
                0 <= b < x0@.len() ==> crate::linalg::rows_wf(
                    (#[trigger] x0@[b]).deep_view(),
                    self.d_model as nat,
                ),
            enc@.len() == x0@.len(),
            forall|b: int|
                0 <= b < enc@.len() ==> crate::linalg::rows_wf(
                    (#[trigger] enc@[b]).deep_view(),
                    self.d_model as nat,
                ),
            emask matches Some(m) ==> m@.len() == x0@.len() && forall|b: int|
                0 <= b < m@.len() ==> (#[trigger] m@[b])@.len() == enc@[b]@.len(),
            layer_states matches Some(c) ==> cache_wf(
                c@,
                self.layers@.len(),
                x0@.len(),
                self.inner as nat,
            ) && cross_len_wf(c@, enc.deep_view()),
        ensures
            dec_forward_post(
                self.layers@,
                cache_view(*layer_states),
                enc.deep_view(),
                t2_opt_view(emask),
                x0.deep_view(),
                r.0.deep_view(),
                r.1@,
                self.d_model as nat,
                self.inner as nat,
            ),
            r.2@.len() == (if self.output_hidden_states {
                self.layers@.len()
            } else {
                0
            }),
    {
        broadcast use crate::linalg::lemma_row_deep_view, crate::linalg::lemma_mat_deep_view_index, crate::linalg::lemma_t3_deep_view_index;

        let ghost layers_v = self.layers@;
        let ghost cv = cache_view(*layer_states);
        let ghost encv = enc.deep_view();
        let ghost emaskv = t2_opt_view(emask);
        let ghost x0v = x0.deep_view();
        let batch: usize = x0.len();

        let mut cur: Tensor3 = x0;
        let mut out_cache: Vec<(Option<LayerState>, Option<LayerState>)> = Vec::new();
        let mut hiddens: Vec<Tensor3> = Vec::new();
        let nlayers: usize = self.layers.len();
        let mut l: usize = 0;
        while l < nlayers
            invariant
                l <= nlayers,
                cur@.len() == batch,
                forall|b: int|
                    0 <= b < batch ==> (#[trigger] cur@[b]).deep_view() == dec_hidden(
                        dec_ctxs(layers_v, cv, encv[b], b).take(l as int),
                        mask_row2(emaskv, b),
                        x0v[b],
                    ),
                forall|b: int|
                    0 <= b < batch ==> crate::linalg::rows_wf(
                        (#[trigger] cur@[b]).deep_view(),
                        self.d_model as nat,
                    ),
                out_cache@.len() == l,
                forall|k: int|
                    0 <= k < l ==> {
                        &&& (#[trigger] out_cache@[k]).0 is Some
                        &&& out_cache@[k].1 is Some
                        &&& self_state_wf(out_cache@[k].0.unwrap()@, batch as nat, self.inner as nat)
                        &&& self_state_wf(out_cache@[k].1.unwrap()@, batch as nat, self.inner as nat)
                    },
                forall|k: int, b: int|
                    #![trigger out_cache@[k].0.unwrap()@.keys[b]]
                    (0 <= k < l && 0 <= b < batch) ==> out_cache@[k].0.unwrap()@.keys[b]
                        == dec_next_ctxs(
                        dec_ctxs(layers_v, cv, encv[b], b),
                        mask_row2(emaskv, b),
                        x0v[b],
                    )[k].past_keys,
                forall|k: int, b: int|
                    #![trigger out_cache@[k].0.unwrap()@.vals[b]]
                    (0 <= k < l && 0 <= b < batch) ==> out_cache@[k].0.unwrap()@.vals[b]
                        == dec_next_ctxs(
                        dec_ctxs(layers_v, cv, encv[b], b),
                        mask_row2(emaskv, b),
                        x0v[b],
                    )[k].past_vals,
                forall|k: int, b: int|
                    #![trigger out_cache@[k].1.unwrap()@.keys[b]]
                    (0 <= k < l && 0 <= b < batch) ==> out_cache@[k].1.unwrap()@.keys[b]
                        == dec_next_ctxs(
                        dec_ctxs(layers_v, cv, encv[b], b),
                        mask_row2(emaskv, b),
                        x0v[b],
                    )[k].cross_keys,
                forall|k: int, b: int|
                    #![trigger out_cache@[k].1.unwrap()@.vals[b]]
                    (0 <= k < l && 0 <= b < batch) ==> out_cache@[k].1.unwrap()@.vals[b]
                        == dec_next_ctxs(
                        dec_ctxs(layers_v, cv, encv[b], b),
                        mask_row2(emaskv, b),
                        x0v[b],
                    )[k].cross_vals,
                hiddens@.len() == (if self.output_hidden_states {
                    l
                } else {
                    0
                }),
            decreases nlayers - l,
        {
            let layer = &self.layers[l];
            let cw_ref: &AttnWeights = match &layer.cross_attention {
                Option::Some(w) => w,
                Option::None => {
                    proof {
                        assert(false);
                    }
                    &layer.self_attention
                },
            };
            let mut out_t: Tensor3 = Vec::new();
            let mut sk_t: Tensor3 = Vec::new();
            let mut sv_t: Tensor3 = Vec::new();
            let mut ck_t: Tensor3 = Vec::new();
            let mut cv_t: Tensor3 = Vec::new();
            let mut b: usize = 0;
            while b < batch
                invariant
                    b <= batch,
                    out_t@.len() == b,
                    sk_t@.len() == b,
                    sv_t@.len() == b,
                    ck_t@.len() == b,
                    cv_t@.len() == b,
                    forall|bb: int|
                        0 <= bb < b ==> (#[trigger] out_t@[bb]).deep_view() == ({
                            let c = dec_ctxs(layers_v, cv, encv[bb], bb)[l as int];
                            dec_layer_out(
                                c.sw,
                                c.cw,
                                c.past_vals,
                                c.cross_vals,
                                mask_row2(emaskv, bb),
                                cur@[bb].deep_view(),
                            )
                        }),
                    forall|bb: int|
                        0 <= bb < b ==> crate::linalg::rows_wf(
                            (#[trigger] out_t@[bb]).deep_view(),
                            self.d_model as nat,
                        ),
                    forall|bb: int|
                        0 <= bb < b ==> (#[trigger] sk_t@[bb]).deep_view() == ({
                            let c = dec_ctxs(layers_v, cv, encv[bb], bb)[l as int];
                            c.past_keys + proj_seq(c.sw.wk, cur@[bb].deep_view())
                        }),
                    forall|bb: int|
                        0 <= bb < b ==> (#[trigger] sv_t@[bb]).deep_view() == ({
                            let c = dec_ctxs(layers_v, cv, encv[bb], bb)[l as int];
                            c.past_vals + proj_seq(c.sw.wv, cur@[bb].deep_view())
                        }),
                    forall|bb: int|
                        0 <= bb < b ==> (#[trigger] ck_t@[bb]).deep_view() == dec_ctxs(
                            layers_v,
                            cv,
                            encv[bb],
                            bb,
                        )[l as int].cross_keys,
                    forall|bb: int|
                        0 <= bb < b ==> (#[trigger] cv_t@[bb]).deep_view() == dec_ctxs(
                            layers_v,
                            cv,
                            encv[bb],
                            bb,
                        )[l as int].cross_vals,
                    forall|bb: int|
                        0 <= bb < b ==> (#[trigger] sk_t@[bb]).deep_view().len() == sv_t@[bb].deep_view().len(),
                    forall|bb: int|
                        0 <= bb < b ==> crate::linalg::rows_wf(
                            (#[trigger] sk_t@[bb]).deep_view(),
                            self.inner as nat,
                        ),
                    forall|bb: int|
                        0 <= bb < b ==> crate::linalg::rows_wf(
                            (#[trigger] sv_t@[bb]).deep_view(),
                            self.inner as nat,
                        ),
                    forall|bb: int|
                        0 <= bb < b ==> (#[trigger] ck_t@[bb]).deep_view().len() == cv_t@[bb].deep_view().len(),
                    forall|bb: int|
                        0 <= bb < b ==> crate::linalg::rows_wf(
                            (#[trigger] ck_t@[bb]).deep_view(),
                            self.inner as nat,
                        ),
                    forall|bb: int|
                        0 <= bb < b ==> crate::linalg::rows_wf(
                            (#[trigger] cv_t@[bb]).deep_view(),
                            self.inner as nat,
                        ),
                decreases batch - b,
            {
                let ghost cb = dec_ctxs(layers_v, cv, encv[b as int], b as int)[l as int];
                let past_ref: Option<(&Vec<Vec<i64>>, &Vec<Vec<i64>>)> = match layer_states {
                    Option::Some(cvec) => match &cvec[l].0 {
                        Option::Some(ls) => Option::Some((&ls.prev_key[b], &ls.prev_value[b])),
                        Option::None => Option::None,
                    },
                    Option::None => Option::None,
                };
                let cross_ref: Option<(&Vec<Vec<i64>>, &Vec<Vec<i64>>)> = match layer_states {
                    Option::Some(cvec) => match &cvec[l].1 {
                        Option::Some(ls) => Option::Some((&ls.prev_key[b], &ls.prev_value[b])),
                        Option::None => Option::None,
                    },
                    Option::None => Option::None,
                };
                let mask_ref: Option<&Vec<i64>> = match emask {
                    Option::Some(m) => Option::Some(&m[b]),
                    Option::None => Option::None,
                };
                proof {
                    assert(cb.sw == self.layers@[l as int].self_attention@);
                    assert(cb.cw == cw_ref@);
                    match past_ref {
                        Option::Some((pk, pv)) => {
                            assert(cb.past_keys == pk.deep_view());
                            assert(cb.past_vals == pv.deep_view());
                        },
                        Option::None => {
                            assert(cb.past_keys =~= Seq::<Seq<i64>>::empty());
                            assert(cb.past_vals =~= Seq::<Seq<i64>>::empty());
                        },
                    }
                    match cross_ref {
                        Option::Some((ck, cvv)) => {
                            assert(cb.cross_keys == ck.deep_view());
                            assert(cb.cross_vals == cvv.deep_view());
                        },
                        Option::None => {
                            assert(encv[b as int] == enc@[b as int].deep_view());
                        },
                    }
                }
                let (rows, nk, nv, ckb, cvb) = dec_layer_batch(
                    &layer.self_attention,
                    cw_ref,
                    &cur[b],
                    past_ref,
                    cross_ref,
                    &enc[b],
                    mask_ref,
                    self.d_model,
                    self.inner,
                );
                out_t.push(rows);
                sk_t.push(nk);
                sv_t.push(nv);
                ck_t.push(ckb);
                cv_t.push(cvb);
                b += 1;
            }
            let self_state = LayerState { prev_key: sk_t, prev_value: sv_t };
            let cross_state = LayerState { prev_key: ck_t, prev_value: cv_t };
            proof {
                assert forall|bb: int| 0 <= bb < batch implies (#[trigger] out_t@[bb]).deep_view()
                    == dec_hidden(
                    dec_ctxs(layers_v, cv, encv[bb], bb).take(l as int + 1),
                    mask_row2(emaskv, bb),
                    x0v[bb],
                ) by {
                    let ctxs_b = dec_ctxs(layers_v, cv, encv[bb], bb);
                    assert(ctxs_b.take(l as int + 1) =~= ctxs_b.take(l as int).push(
                        ctxs_b[l as int],
                    ));
                    lemma_dec_hidden_snoc(
                        ctxs_b.take(l as int),
                        ctxs_b[l as int],
                        mask_row2(emaskv, bb),
                        x0v[bb],
                    );
                }
                assert forall|bb: int| 0 <= bb < batch implies (#[trigger] sk_t@[bb]).deep_view()
                    == dec_next_ctxs(
                    dec_ctxs(layers_v, cv, encv[bb], bb),
                    mask_row2(emaskv, bb),
                    x0v[bb],
                )[l as int].past_keys by {
                    lemma_dec_next_ctxs_index(
                        dec_ctxs(layers_v, cv, encv[bb], bb),
                        mask_row2(emaskv, bb),
                        x0v[bb],
                        l as int,
                    );
                }
                assert forall|bb: int| 0 <= bb < batch implies (#[trigger] sv_t@[bb]).deep_view()
                    == dec_next_ctxs(
                    dec_ctxs(layers_v, cv, encv[bb], bb),
                    mask_row2(emaskv, bb),
                    x0v[bb],
                )[l as int].past_vals by {
                    lemma_dec_next_ctxs_index(
                        dec_ctxs(layers_v, cv, encv[bb], bb),
                        mask_row2(emaskv, bb),
                        x0v[bb],
                        l as int,
                    );
                }
                assert forall|bb: int| 0 <= bb < batch implies (#[trigger] ck_t@[bb]).deep_view()
                    == dec_next_ctxs(
                    dec_ctxs(layers_v, cv, encv[bb], bb),
                    mask_row2(emaskv, bb),
                    x0v[bb],
                )[l as int].cross_keys by {
                    lemma_dec_next_ctxs_index(
                        dec_ctxs(layers_v, cv, encv[bb], bb),
                        mask_row2(emaskv, bb),
                        x0v[bb],
                        l as int,
                    );
                }
                assert forall|bb: int| 0 <= bb < batch implies (#[trigger] cv_t@[bb]).deep_view()
                    == dec_next_ctxs(
                    dec_ctxs(layers_v, cv, encv[bb], bb),
                    mask_row2(emaskv, bb),
                    x0v[bb],
                )[l as int].cross_vals by {
                    lemma_dec_next_ctxs_index(
                        dec_ctxs(layers_v, cv, encv[bb], bb),
                        mask_row2(emaskv, bb),
                        x0v[bb],
                        l as int,
                    );
                }
            }
            out_cache.push((Option::Some(self_state), Option::Some(cross_state)));
            cur = out_t;
            if self.output_hidden_states {
                let snap = crate::linalg::copy_t3(&cur);
                hiddens.push(snap);
            }
            l += 1;
        }
        proof {
            assert forall|b: int| 0 <= b < batch implies (#[trigger] cur@[b]).deep_view()
                == dec_hidden(
                dec_ctxs(layers_v, cv, encv[b], b),
                mask_row2(emaskv, b),
                x0v[b],
            ) by {
                let ctxs_b = dec_ctxs(layers_v, cv, encv[b], b);
                assert(ctxs_b.take(nlayers as int) =~= ctxs_b);
            }
        }
        (cur, out_cache, hiddens)
    }

    /// One encoder pass over the already-embedded positions.
    fn forward_encoder(&self, x0: Tensor3, mask: Option<&Tensor2>) -> (r: (Tensor3, Vec<Tensor3>))
        requires
            self.wf(),
            !self.is_decoder,
            forall|b: int|
                0 <= b < x0@.len() ==> crate::linalg::rows_wf(
                    (#[trigger] x0@[b]).deep_view(),
                    self.d_model as nat,
                ),
            mask matches Some(m) ==> m@.len() == x0@.len() && forall|b: int|
                0 <= b < m@.len() ==> (#[trigger] m@[b])@.len() == x0@[b]@.len(),
        ensures
            enc_forward_post(
                self.layers@,
                t2_opt_view(mask),
                x0.deep_view(),
                r.0.deep_view(),
                self.d_model as nat,
            ),
            r.1@.len() == (if self.output_hidden_states {
                self.layers@.len()
            } else {
                0
            }),
    {
        broadcast use crate::linalg::lemma_row_deep_view, crate::linalg::lemma_mat_deep_view_index, crate::linalg::lemma_t3_deep_view_index;

        let ghost ws = enc_views(self.layers@);
        let ghost maskv = t2_opt_view(mask);
        let ghost x0v = x0.deep_view();
        let batch: usize = x0.len();

        let mut cur: Tensor3 = x0;
        let mut hiddens: Vec<Tensor3> = Vec::new();
        let nlayers: usize = self.layers.len();
        let mut l: usize = 0;
        while l < nlayers
            invariant
                l <= nlayers,
                cur@.len() == batch,
                forall|b: int|
                    0 <= b < batch ==> (#[trigger] cur@[b]).deep_view() == enc_hidden(
                        ws.take(l as int),
                        mask_row2(maskv, b),
                        x0v[b],
                    ),
                forall|b: int|
                    0 <= b < batch ==> crate::linalg::rows_wf(
                        (#[trigger] cur@[b]).deep_view(),
                        self.d_model as nat,
                    ),
                forall|b: int|
                    0 <= b < batch ==> (#[trigger] cur@[b])@.len() == x0v[b].len(),
                hiddens@.len() == (if self.output_hidden_states {
                    l
                } else {
                    0
                }),
            decreases nlayers - l,
        {
            let layer = &self.layers[l];
            let mut out_t: Tensor3 = Vec::new();
            let mut b: usize = 0;
            while b < batch
                invariant
                    b <= batch,
                    out_t@.len() == b,
                    forall|bb: int|
                        0 <= bb < b ==> (#[trigger] out_t@[bb]).deep_view() == enc_layer_out(
                            ws[l as int],
                            mask_row2(maskv, bb),
                            cur@[bb].deep_view(),
                        ),
                    forall|bb: int|
                        0 <= bb < b ==> crate::linalg::rows_wf(
                            (#[trigger] out_t@[bb]).deep_view(),
                            self.d_model as nat,
                        ),
                    forall|bb: int|
                        0 <= bb < b ==> (#[trigger] out_t@[bb])@.len() == cur@[bb]@.len(),
                decreases batch - b,
            {
                let mask_ref: Option<&Vec<i64>> = match mask {
                    Option::Some(m) => Option::Some(&m[b]),
                    Option::None => Option::None,
                };
                proof {
                    assert(ws[l as int] == self.layers@[l as int].self_attention@);
                }
                let rows = enc_layer_batch(
                    &layer.self_attention,
                    &cur[b],
                    mask_ref,
                    self.d_model,
                    self.inner,
                );
                out_t.push(rows);
                b += 1;
            }
            proof {
                assert forall|bb: int| 0 <= bb < batch implies (#[trigger] out_t@[bb]).deep_view()
                    == enc_hidden(ws.take(l as int + 1), mask_row2(maskv, bb), x0v[bb]) by {
                    assert(ws.take(l as int + 1) =~= ws.take(l as int).push(ws[l as int]));
                    lemma_enc_hidden_snoc(
                        ws.take(l as int),
                        ws[l as int],
                        mask_row2(maskv, bb),
                        x0v[bb],
                    );
                }
            }
            cur = out_t;
            if self.output_hidden_states {
                let snap = crate::linalg::copy_t3(&cur);
                hiddens.push(snap);
            }
            l += 1;
        }
        proof {
            assert(ws.take(nlayers as int) =~= ws);
        }
        (cur, hiddens)
    }

    /// One pass through the stack.
    ///
    /// Exactly one of `input_ids` and `input_embeds` must be usable; any
    /// other combination is refused. An encoder ignores the cache and the
    /// encoder arguments and applies `attention_mask` to its own positions;
    /// a decoder attends over `encoder_hidden_state` (masked by
    /// `encoder_attention_mask`) and threads `layer_states`. Causal
    /// self-attention masking is inherent in the kernel's prefix sums, so a
    /// decoder does not consult its own `attention_mask` argument. The
    /// reference kernel is deterministic, so `train` has no effect.
    #[allow(unused_variables)]
    pub fn forward_t(
        &self,
        input_ids: Option<&Tensor2>,
        attention_mask: Option<&Tensor2>,
        encoder_hidden_state: Option<&Tensor3>,
        encoder_attention_mask: Option<&Tensor2>,
        input_embeds: Option<Tensor3>,
        embeddings: &Embedding,
        layer_states: Option<Vec<(Option<LayerState>, Option<LayerState>)>>,
        train: bool,
    ) -> (r: Result<T5StackOutput, ModelError>)
        requires
            self.wf(),
            crate::linalg::rows_wf(embeddings.ws.deep_view(), self.d_model as nat),
            input_ids matches Some(t) ==> tokens_wf(t.deep_view(), embeddings.ws@.len() as int),
            input_embeds matches Some(e) ==> forall|b: int|
                0 <= b < e@.len() ==> crate::linalg::rows_wf(
                    (#[trigger] e@[b]).deep_view(),
                    self.d_model as nat,
                ),
            self.is_decoder ==> encoder_hidden_state is Some,
            ({
                let x03 = resolved_view(input_ids, input_embeds, embeddings.ws.deep_view());
                &&& (self.is_decoder && one_input(input_ids, input_embeds)) ==> ({
                    let enc3 = encoder_hidden_state.unwrap().deep_view();
                    &&& enc3.len() == x03.len()
                    &&& forall|b: int|
                        0 <= b < enc3.len() ==> crate::linalg::rows_wf(
                            #[trigger] enc3[b],
                            self.d_model as nat,
                        )
                    &&& (encoder_attention_mask matches Some(m) ==> m.deep_view().len()
                        == x03.len() && forall|b: int|
                        0 <= b < x03.len() ==> (#[trigger] m.deep_view()[b]).len()
                            == enc3[b].len())
                    &&& (layer_states matches Some(c) ==> cache_wf(
                        c@,
                        self.layers@.len(),
                        x03.len(),
                        self.inner as nat,
                    ) && cross_len_wf(c@, enc3))
                })
                &&& ((!self.is_decoder && one_input(input_ids, input_embeds)) ==> (
                attention_mask matches Some(m) ==> m.deep_view().len() == x03.len() && forall|
                    b: int,
                |
                    0 <= b < x03.len() ==> (#[trigger] m.deep_view()[b]).len() == x03[b].len()))
            }),
        ensures
            r is Ok <==> one_input(input_ids, input_embeds),
            r matches Ok(out) ==> ({
                let x03 = resolved_view(input_ids, input_embeds, embeddings.ws.deep_view());
                &&& self.is_decoder ==> {
                    &&& out.next_cache is Some
                    &&& dec_forward_post(
                        self.layers@,
                        cache_view(layer_states),
                        encoder_hidden_state.unwrap().deep_view(),
                        t2_opt_view(encoder_attention_mask),
                        x03,
                        out.hidden_state.deep_view(),
                        out.next_cache.unwrap()@,
                        self.d_model as nat,
                        self.inner as nat,
                    )
                }
                &&& !self.is_decoder ==> {
                    &&& out.next_cache is None
                    &&& enc_forward_post(
                        self.layers@,
                        t2_opt_view(attention_mask),
                        x03,
                        out.hidden_state.deep_view(),
                        self.d_model as nat,
                    )
                }
                &&& (out.all_hidden_states is Some <==> self.output_hidden_states)
                &&& (out.all_hidden_states matches Some(h) ==> h@.len() == self.layers@.len())
                &&& (out.all_attentions is Some <==> self.output_attentions)
                &&& (out.all_attentions matches Some(a) ==> a@.len() == self.layers@.len())
            }),
    {
        broadcast use crate::linalg::lemma_row_deep_view, crate::linalg::lemma_mat_deep_view_index, crate::linalg::lemma_t3_deep_view_index;

        let ghost table = embeddings.ws.deep_view();
        let ghost x03 = resolved_view(input_ids, input_embeds, table);
        let x0: Tensor3 = match (input_ids, input_embeds) {
            (Option::Some(_), Option::Some(_)) => {
                return Result::Err(
                    ModelError::ValueError(
                        "Only one of input ids or input embeddings may be provided".to_string(),
                    ),
                );
            },
            (Option::None, Option::None) => {
                return Result::Err(
                    ModelError::ValueError(
                        "At least one of input ids or input embeddings must be provided".to_string(),
                    ),
                );
            },
            (Option::None, Option::Some(e)) => e,
            (Option::Some(ids), Option::None) => {
                let mut built: Tensor3 = Vec::new();
                let mut b: usize = 0;
                while b < ids.len()
                    invariant
                        b <= ids@.len(),
                        built@.len() == b,
                        forall|k: int|
                            0 <= k < b ==> (#[trigger] built@[k]).deep_view() == embed_seq(
                                table,
                                ids.deep_view()[k],
                            ),
                        forall|k: int|
                            0 <= k < b ==> crate::linalg::rows_wf(
                                (#[trigger] built@[k]).deep_view(),
                                self.d_model as nat,
                            ),
                    decreases ids@.len() - b,
                {
                    proof {
                        assert(ids.deep_view()[b as int] == ids@[b as int]@);
                        assert(ids_wf(ids@[b as int]@, embeddings.ws@.len() as int));
                    }
                    let rows = embed_row(embeddings, &ids[b]);
                    proof {
                        assert(rows.deep_view() =~= embed_seq(table, ids.deep_view()[b as int]));
                        assert forall|i: int|
                            0 <= i < rows.deep_view().len() implies (#[trigger] rows.deep_view()[i]).len()
                            == self.d_model as nat by {
                            assert(rows@[i]@ == table[ids@[b as int]@[i] as int]);
                        }
                    }
                    built.push(rows);
                    b += 1;
                }
                proof {
                    assert(built.deep_view() =~= x03);
                }
                built
            },
        };
        proof {
            assert(x0.deep_view() == x03);
            assert forall|b: int| 0 <= b < x0@.len() implies crate::linalg::rows_wf(
                (#[trigger] x0@[b]).deep_view(),
                self.d_model as nat,
            ) by {
                assert(x0@[b].deep_view() == x03[b]);
                if input_embeds is Some {
                    assert(input_embeds.unwrap()@[b].deep_view() == x03[b]);
                }
            }
        }
        if self.is_decoder {
            let enc: &Tensor3 = match encoder_hidden_state {
                Option::Some(e) => e,
                Option::None => {
                    proof {
                        assert(false);
                    }
                    return Result::Err(
                        ModelError::ValueError(
                            "A decoder pass needs an encoder hidden state".to_string(),
                        ),
                    );
                },
            };
            proof {
                assert forall|b: int| 0 <= b < enc@.len() implies crate::linalg::rows_wf(
                    (#[trigger] enc@[b]).deep_view(),
                    self.d_model as nat,
                ) by {
                    assert(enc.deep_view()[b] == enc@[b].deep_view());
                }
                if encoder_attention_mask is Some {
                    let m = encoder_attention_mask.unwrap();
                    assert forall|b: int| 0 <= b < m@.len() implies (#[trigger] m@[b])@.len()
                        == enc@[b]@.len() by {
                        assert(m.deep_view()[b] == m@[b]@);
                        assert(enc.deep_view()[b] == enc@[b].deep_view());
                    }
                }
            }
            let (hidden, cache, hiddens) = self.forward_decoder(
                x0,
                enc,
                encoder_attention_mask,
                &layer_states,
            );
            let all_hidden_states: Option<Vec<Tensor3>> = if self.output_hidden_states {
                Option::Some(hiddens)
            } else {
                Option::None
            };
            let all_attentions: Option<Vec<Tensor3>> = if self.output_attentions {
                let mut a: Vec<Tensor3> = Vec::new();
                let mut i: usize = 0;
                let n: usize = self.layers.len();
                while i < n
                    invariant
                        i <= n,
                        a@.len() == i,
                    decreases n - i,
                {
                    a.push(Vec::new());
                    i += 1;
                }
                Option::Some(a)
            } else {
                Option::None
            };
            Result::Ok(
                T5StackOutput {
                    hidden_state: hidden,
                    next_cache: Option::Some(cache),
                    all_hidden_states,
                    all_attentions,
                },
            )
        } else {
            proof {
                if attention_mask is Some {
                    let m = attention_mask.unwrap();
                    assert forall|b: int| 0 <= b < m@.len() implies (#[trigger] m@[b])@.len()
                        == x0@[b]@.len() by {
                        assert(m.deep_view()[b] == m@[b]@);
                        assert(x0@[b].deep_view() == x03[b]);
                    }
                }
            }
            let (hidden, hiddens) = self.forward_encoder(x0, attention_mask);
            let all_hidden_states: Option<Vec<Tensor3>> = if self.output_hidden_states {
                Option::Some(hiddens)
            } else {
                Option::None
            };
            let all_attentions: Option<Vec<Tensor3>> = if self.output_attentions {
                let mut a: Vec<Tensor3> = Vec::new();
                let mut i: usize = 0;
                let n: usize = self.layers.len();
                while i < n
                    invariant
                        i <= n,
                        a@.len() == i,
                    decreases n - i,
                {
                    a.push(Vec::new());
                    i += 1;
                }
                Option::Some(a)
            } else {
                Option::None
            };
            Result::Ok(
                T5StackOutput {
                    hidden_state: hidden,
                    next_cache: Option::None,
                    all_hidden_states,
                    all_attentions,
                },
            )
        }
    }
}

} // verus!
