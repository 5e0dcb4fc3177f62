//! The T5 model: shared embedding table, encoder stack and decoder stack,
//! composed into a single encode-then-decode call, and the
//! conditional-generation head that turns decoder states into vocabulary
//! logits.

use vstd::prelude::*;

use crate::attention::LayerState;
use crate::config::T5Config;
use crate::encoder::{
    cache_view, cache_wf, cross_len_wf, dec_ctxs, dec_forward_post, dec_hidden, enc_hidden,
    enc_views, mask_row2, one_input, resolved_view, t2_opt_view,
    tokens_wf, Embedding, StackLayer, T5Stack, T5StackOutput,
};
use crate::linalg::{
    mat_wf, matvec, rows_wf, scale_row, spec_isqrt, spec_matvec, spec_scale_row, Tensor2, Tensor3,
};
use crate::ModelError;

verus! {

/// Every weight of a T5 model, as plain matrices: the shared embedding table
/// and the per-layer attention projections of both stacks.
pub struct T5Weights {
    /// The shared embedding table, `vocab_size x d_model`.
    pub shared: Tensor2,
    /// Encoder layer weights, in application order.
    pub encoder_layers: Vec<StackLayer>,
    /// Decoder layer weights, in application order.
    pub decoder_layers: Vec<StackLayer>,
}

impl T5Weights {
    /// The weights fit the configuration's dimensions.
    pub open spec fn wf(&self, config: &T5Config) -> bool {
        &&& mat_wf(self.shared.deep_view(), config.vocab_size as nat, config.d_model as nat)
        &&& self.encoder_layers@.len() == config.num_layers
        &&& self.decoder_layers@.len() == config.num_layers
        &&& forall|l: int|
            0 <= l < self.encoder_layers@.len() ==> crate::attention::attn_wf(
                (#[trigger] self.encoder_layers@[l]).self_attention@,
                config.d_model as nat,
                (config.num_heads * config.d_kv) as nat,
            )
        &&& forall|l: int|
            0 <= l < self.encoder_layers@.len() ==> (#[trigger] self.encoder_layers@[l]).cross_attention is None
        &&& forall|l: int|
            0 <= l < self.decoder_layers@.len() ==> crate::attention::attn_wf(
                (#[trigger] self.decoder_layers@[l]).self_attention@,
                config.d_model as nat,
                (config.num_heads * config.d_kv) as nat,
            )
        &&& forall|l: int|
            0 <= l < self.decoder_layers@.len() ==> (#[trigger] self.decoder_layers@[l]).cross_attention is Some
        &&& forall|l: int|
            0 <= l < self.decoder_layers@.len() ==> crate::attention::attn_wf(
                (#[trigger] self.decoder_layers@[l]).cross_attention.unwrap()@,
                config.d_model as nat,
                (config.num_heads * config.d_kv) as nat,
            )
    }
}

/// What one model pass returns.
pub struct T5ModelOutput {
    /// The last decoder hidden state, or vocabulary logits under the
    /// conditional-generation head.
    pub decoder_output: Tensor3,
    /// The encoder hidden state when it was computed in this call; absent
    /// when a precomputed encoder output was supplied.
    pub encoder_hidden_state: Option<Tensor3>,
    /// One `(self, cross)` cache pair per decoder layer.
    pub next_cache: Option<Vec<(Option<LayerState>, Option<LayerState>)>>,
    /// Every decoder layer's output, when requested.
    pub all_decoder_hidden_states: Option<Vec<Tensor3>>,
    /// Decoder attention diagnostics, when requested.
    pub all_decoder_attentions: Option<Vec<Tensor3>>,
    /// Every encoder layer's output, when requested and when encoding ran.
    pub all_encoder_hidden_states: Option<Vec<Tensor3>>,
    /// Encoder attention diagnostics, when requested and when encoding ran.
    pub all_encoder_attentions: Option<Vec<Tensor3>>,
}

/// The base T5 architecture: shared embeddings, an encoder stack, and a
/// decoder stack with the incremental key/value cache.
pub struct T5Model {
    /// The encoder stack.
    pub encoder: T5Stack,
    /// The decoder stack.
    pub decoder: T5Stack,
    /// The shared embedding table.
    pub embeddings: Embedding,
}

impl T5Model {
    /// Both stacks are well-formed, agree on their widths and depth, and the
    /// embedding table produces rows of model width.
    pub open spec fn wf(&self) -> bool {
        &&& self.encoder.wf()
        &&& !self.encoder.is_decoder
        &&& self.decoder.wf()
        &&& self.decoder.is_decoder
        &&& self.encoder.d_model == self.decoder.d_model
        &&& self.encoder.inner == self.decoder.inner
        &&& self.encoder.layers@.len() == self.decoder.layers@.len()
        &&& rows_wf(self.embeddings.ws.deep_view(), self.decoder.d_model as nat)
        &&& 1 <= self.decoder.d_model
    }

    /// Build a model from its weights and configuration.
    pub fn new(
        p: T5Weights,
        config: &T5Config,
        output_attentions: bool,
        output_hidden_states: bool,
    ) -> (r: T5Model)
        requires
            config.wf(),
            p.wf(config),
            config.d_model <= usize::MAX,
            config.num_heads * config.d_kv <= usize::MAX,
        ensures
            r.wf(),
            r.embeddings.ws == p.shared,
            r.encoder.layers == p.encoder_layers,
            r.decoder.layers == p.decoder_layers,
            r.decoder.d_model == config.d_model,
            r.decoder.inner == config.num_heads * config.d_kv,
            r.encoder.output_attentions == output_attentions,
            r.encoder.output_hidden_states == output_hidden_states,
            r.decoder.output_attentions == output_attentions,
            r.decoder.output_hidden_states == output_hidden_states,
    {
        let T5Weights { shared, encoder_layers, decoder_layers } = p;
        let encoder = T5Stack::new(
            encoder_layers,
            config,
            false,
            false,
            output_attentions,
            output_hidden_states,
        );
        let decoder = T5Stack::new(
            decoder_layers,
            config,
            true,
            true,
            output_attentions,
            output_hidden_states,
        );
        T5Model { encoder, decoder, embeddings: Embedding { ws: shared } }
    }

    /// The encoder hidden state a forward pass decodes against: the supplied
    /// one, or the encoder denotation over the resolved source input.
    pub open spec fn eff_encoder_view(
        &self,
        encoder_outputs: Option<&Tensor3>,
        input_ids: Option<&Tensor2>,
        input_embeds: Option<Tensor3>,
        attention_mask: Option<&Tensor2>,
    ) -> Seq<Seq<Seq<i64>>> {
        match encoder_outputs {
            Option::Some(e) => e.deep_view(),
            Option::None => {
                let x03 = resolved_view(input_ids, input_embeds, self.embeddings.ws.deep_view());
                Seq::new(
                    x03.len(),
                    |b: int|
                        enc_hidden(
                            enc_views(self.encoder.layers@),
                            mask_row2(t2_opt_view(attention_mask), b),
                            x03[b],
                        ),
                )
            },
        }
    }
}

/// The conditions a forward pass needs: exactly one usable source input
/// (unless an encoder output is supplied), exactly one usable decoder input,
/// and shapes that fit the model.
pub open spec fn forward_inputs_wf(
    model: &T5Model,
    input_ids: Option<&Tensor2>,
    attention_mask: Option<&Tensor2>,
    encoder_outputs: Option<&Tensor3>,
    decoder_input_ids: Option<&Tensor2>,
    input_embeds: Option<Tensor3>,
    decoder_input_embeds: Option<Tensor3>,
    old_layer_states: Option<Vec<(Option<LayerState>, Option<LayerState>)>>,
) -> bool {
    let table = model.embeddings.ws.deep_view();
    let xsrc = resolved_view(input_ids, input_embeds, table);
    let xdec = resolved_view(decoder_input_ids, decoder_input_embeds, table);
    let enc3 = model.eff_encoder_view(encoder_outputs, input_ids, input_embeds, attention_mask);
    &&& model.wf()
    &&& one_input(decoder_input_ids, decoder_input_embeds)
    &&& (encoder_outputs is Some || one_input(input_ids, input_embeds))
    &&& (input_ids matches Some(t) ==> tokens_wf(t.deep_view(), model.embeddings.ws@.len() as int))
    &&& (input_embeds matches Some(e) ==> forall|b: int|
        0 <= b < e@.len() ==> rows_wf((#[trigger] e@[b]).deep_view(), model.decoder.d_model as nat))
    &&& (decoder_input_ids matches Some(t) ==> tokens_wf(
        t.deep_view(),
        model.embeddings.ws@.len() as int,
    ))
    &&& (decoder_input_embeds matches Some(e) ==> forall|b: int|
        0 <= b < e@.len() ==> rows_wf((#[trigger] e@[b]).deep_view(), model.decoder.d_model as nat))
    &&& (encoder_outputs matches Some(e) ==> forall|b: int|
        0 <= b < e@.len() ==> rows_wf((#[trigger] e@[b]).deep_view(), model.decoder.d_model as nat))
    &&& enc3.len() == xdec.len()
    &&& (encoder_outputs is None ==> (attention_mask matches Some(m) ==> m.deep_view().len()
        == xsrc.len() && forall|b: int|
        0 <= b < xsrc.len() ==> (#[trigger] m.deep_view()[b]).len() == xsrc[b].len()))
    &&& (encoder_outputs matches Some(e) ==> (attention_mask matches Some(m)
        ==> m.deep_view().len() == xdec.len() && forall|b: int|
        0 <= b < xdec.len() ==> (#[trigger] m.deep_view()[b]).len() == e.deep_view()[b].len()))
    &&& (old_layer_states matches Some(c) ==> cache_wf(
        c@,
        model.decoder.layers@.len(),
        xdec.len(),
        model.decoder.inner as nat,
    ) && cross_len_wf(c@, enc3))
}

/// The decoder denotation of a forward pass, one sequence of hidden rows per
/// batch element.
pub open spec fn base_decoder_view(
    model: &T5Model,
    enc3: Seq<Seq<Seq<i64>>>,
    cache_in: Option<Seq<(Option<LayerState>, Option<LayerState>)>>,
    emask2: Option<Seq<Seq<i64>>>,
    xdec3: Seq<Seq<Seq<i64>>>,
) -> Seq<Seq<Seq<i64>>> {
    Seq::new(
        xdec3.len(),
        |b: int|
            dec_hidden(
                dec_ctxs(model.decoder.layers@, cache_in, enc3[b], b),
                mask_row2(emask2, b),
                xdec3[b],
            ),
    )
}

/// The encoder keeps each sequence's length.
pub proof fn lemma_enc_hidden_len(
    ws: Seq<crate::attention::AttnView>,
    mask: Option<Seq<i64>>,
    xs: Seq<Seq<i64>>,
)
    ensures
        enc_hidden(ws, mask, xs).len() == xs.len(),
    decreases ws.len(),
{
    if ws.len() > 0 {
        lemma_enc_hidden_len(ws.skip(1), mask, crate::attention::enc_layer_out(ws[0], mask, xs));
    }
}

impl T5Model {
    /// One full pass: embed and encode the source (unless a precomputed
    /// encoder output is supplied), then decode against it, threading the
    /// per-layer cache.
    ///
    /// The returned `encoder_hidden_state` is present exactly when encoding
    /// ran in this call. The reference kernel is deterministic, so `train`
    /// has no effect.
    #[allow(unused_variables)]
    pub fn forward_t(
        &self,
        input_ids: Option<&Tensor2>,
        attention_mask: Option<&Tensor2>,
        encoder_outputs: Option<&Tensor3>,
        decoder_input_ids: Option<&Tensor2>,
        decoder_attention_mask: Option<&Tensor2>,
        input_embeds: Option<Tensor3>,
        decoder_input_embeds: Option<Tensor3>,
        old_layer_states: Option<Vec<(Option<LayerState>, Option<LayerState>)>>,
        train: bool,
    ) -> (r: T5ModelOutput)
        requires
            forward_inputs_wf(
                self,
                input_ids,
                attention_mask,
                encoder_outputs,
                decoder_input_ids,
                input_embeds,
                decoder_input_embeds,
                old_layer_states,
            ),
        ensures
            ({
                let table = self.embeddings.ws.deep_view();
                let xdec = resolved_view(decoder_input_ids, decoder_input_embeds, table);
                let enc3 = self.eff_encoder_view(
                    encoder_outputs,
                    input_ids,
                    input_embeds,
                    attention_mask,
                );
                &&& (r.encoder_hidden_state is Some <==> encoder_outputs is None)
                &&& (encoder_outputs is None ==> r.encoder_hidden_state.unwrap().deep_view()
                    == enc3)
                &&& r.next_cache is Some
                &&& dec_forward_post(
                    self.decoder.layers@,
                    cache_view(old_layer_states),
                    enc3,
                    t2_opt_view(attention_mask),
                    xdec,
                    r.decoder_output.deep_view(),
                    r.next_cache.unwrap()@,
                    self.decoder.d_model as nat,
                    self.decoder.inner as nat,
                )
                &&& (r.all_decoder_hidden_states is Some <==> self.decoder.output_hidden_states)
                &&& (r.all_decoder_attentions is Some <==> self.decoder.output_attentions)
                &&& (r.all_encoder_hidden_states is Some <==> (self.encoder.output_hidden_states
                    && encoder_outputs is None))
                &&& (r.all_encoder_attentions is Some <==> (self.encoder.output_attentions
                    && encoder_outputs is None))
            }),
    {
        broadcast use crate::linalg::lemma_row_deep_view, crate::linalg::lemma_mat_deep_view_index, crate::linalg::lemma_t3_deep_view_index;

        let ghost table = self.embeddings.ws.deep_view();
        let ghost xdec = resolved_view(decoder_input_ids, decoder_input_embeds, table);
        let ghost enc3 = self.eff_encoder_view(
            encoder_outputs,
            input_ids,
            input_embeds,
            attention_mask,
        );
        if let Option::Some(e) = encoder_outputs {
            let dres = self.decoder.forward_t(
                decoder_input_ids,
                decoder_attention_mask,
                Option::Some(e),
                attention_mask,
                decoder_input_embeds,
                &self.embeddings,
                old_layer_states,
                train,
            );
            let dout = match dres {
                Result::Ok(o) => o,
                Result::Err(_) => {
                    proof {
                        assert(false);
                    }
                    T5StackOutput {
                        hidden_state: Vec::new(),
                        next_cache: Option::None,
                        all_hidden_states: Option::None,
                        all_attentions: Option::None,
                    }
                },
            };
            T5ModelOutput {
                decoder_output: dout.hidden_state,
                encoder_hidden_state: Option::None,
                next_cache: dout.next_cache,
                all_decoder_hidden_states: dout.all_hidden_states,
                all_decoder_attentions: dout.all_attentions,
                all_encoder_hidden_states: Option::None,
                all_encoder_attentions: Option::None,
            }
        } else {
            let eres = self.encoder.forward_t(
                input_ids,
                attention_mask,
                Option::None,
                Option::None,
                input_embeds,
                &self.embeddings,
                Option::None,
                train,
            );
            let eout = match eres {
                Result::Ok(o) => o,
                Result::Err(_) => {
                    proof {
                        assert(false);
                    }
                    T5StackOutput {
                        hidden_state: Vec::new(),
                        next_cache: Option::None,
                        all_hidden_states: Option::None,
                        all_attentions: Option::None,
                    }
                },
            };
            proof {
                let xsrc = resolved_view(input_ids, input_embeds, table);
                assert forall|b: int| 0 <= b < xsrc.len() implies (
                #[trigger] eout.hidden_state.deep_view()[b]).len() == xsrc[b].len() by {
                    lemma_enc_hidden_len(
                        enc_views(self.encoder.layers@),
                        mask_row2(t2_opt_view(attention_mask), b),
                        xsrc[b],
                    );
                }
                assert(eout.hidden_state.deep_view() =~= enc3);
            }
            let dres = self.decoder.forward_t(
                decoder_input_ids,
                decoder_attention_mask,
                Option::Some(&eout.hidden_state),
                attention_mask,
                decoder_input_embeds,
                &self.embeddings,
                old_layer_states,
                train,
            );
            let dout = match dres {
                Result::Ok(o) => o,
                Result::Err(_) => {
                    proof {
                        assert(false);
                    }
                    T5StackOutput {
                        hidden_state: Vec::new(),
                        next_cache: Option::None,
                        all_hidden_states: Option::None,
                        all_attentions: Option::None,
                    }
                },
            };
            T5ModelOutput {
                decoder_output: dout.hidden_state,
                encoder_hidden_state: Option::Some(eout.hidden_state),
                next_cache: dout.next_cache,
                all_decoder_hidden_states: dout.all_hidden_states,
                all_decoder_attentions: dout.all_attentions,
                all_encoder_hidden_states: eout.all_hidden_states,
                all_encoder_attentions: eout.all_attentions,
            }
        }
    }
}

/// The logits of one sequence of hidden rows: each row multiplied by the
/// transpose of the embedding table, then every cell divided by the integer
/// square root of `d_model` — the correction for reusing the embedding
/// matrix as the output projection.
pub open spec fn logits_rows(table: Seq<Seq<i64>>, hs: Seq<Seq<i64>>, d_model: int) -> Seq<
    Seq<i64>,
> {
    Seq::new(hs.len(), |t: int| spec_scale_row(spec_matvec(table, hs[t]), spec_isqrt(d_model)))
}

/// Vocabulary logits for a whole batch.
pub open spec fn logits_view(
    table: Seq<Seq<i64>>,
    hidden3: Seq<Seq<Seq<i64>>>,
    d_model: int,
) -> Seq<Seq<Seq<i64>>> {
    Seq::new(hidden3.len(), |b: int| logits_rows(table, hidden3[b], d_model))
}

/// The T5 model with the language-modeling head: identical composition, with
/// the decoder output projected into vocabulary logits.
pub struct T5ForConditionalGeneration {
    /// The underlying encoder-decoder model.
    pub base_model: T5Model,
    /// The model width, kept for the logits scaling correction.
    pub model_dim: i64,
}

impl T5ForConditionalGeneration {
    /// The base model is well-formed and `model_dim` records its width.
    pub open spec fn wf(&self) -> bool {
        &&& self.base_model.wf()
        &&& self.model_dim == self.base_model.decoder.d_model
        &&& 1 <= self.model_dim
    }

    /// Build a generation model from its weights and configuration.
    pub fn new(
        p: T5Weights,
        config: &T5Config,
        output_attentions: bool,
        output_hidden_states: bool,
    ) -> (r: T5ForConditionalGeneration)
        requires
            config.wf(),
            p.wf(config),
            config.d_model <= usize::MAX,
            config.num_heads * config.d_kv <= usize::MAX,
        ensures
            r.wf(),
            r.base_model.embeddings.ws == p.shared,
            r.base_model.encoder.layers == p.encoder_layers,
            r.base_model.decoder.layers == p.decoder_layers,
            r.model_dim == config.d_model,
            r.base_model.decoder.inner == config.num_heads * config.d_kv,
            r.base_model.encoder.output_attentions == output_attentions,
            r.base_model.encoder.output_hidden_states == output_hidden_states,
            r.base_model.decoder.output_attentions == output_attentions,
            r.base_model.decoder.output_hidden_states == output_hidden_states,
    {
        let d_model: i64 = config.d_model;
        let base_model = T5Model::new(p, config, output_attentions, output_hidden_states);
        T5ForConditionalGeneration { base_model, model_dim: d_model }
    }

    /// Project every decoder hidden row into scaled vocabulary logits.
    fn project_logits(&self, hidden: &Tensor3) -> (r: Tensor3)
        requires
            self.wf(),
            forall|b: int|
                0 <= b < hidden@.len() ==> rows_wf(
                    (#[trigger] hidden@[b]).deep_view(),
                    self.base_model.decoder.d_model as nat,
                ),
        ensures
            r.deep_view() == logits_view(
                self.base_model.embeddings.ws.deep_view(),
                hidden.deep_view(),
                self.model_dim as int,
            ),
            r@.len() == hidden@.len(),
    {
        broadcast use crate::linalg::lemma_row_deep_view, crate::linalg::lemma_mat_deep_view_index, crate::linalg::lemma_t3_deep_view_index;

        let ghost table = self.base_model.embeddings.ws.deep_view();
        let s: u64 = crate::linalg::isqrt(self.model_dim as u64);
        proof {
            crate::linalg::lemma_isqrt_unique(self.model_dim as int, s as int);
        }
        let mut r: Tensor3 = Vec::new();
        let mut b: usize = 0;
        while b < hidden.len()
            invariant
                b <= hidden@.len(),
                r@.len() == b,
                1 <= s,
                s as int == spec_isqrt(self.model_dim as int),
                forall|k: int|
                    0 <= k < b ==> (#[trigger] r@[k]).deep_view() == logits_view(
                        table,
                        hidden.deep_view(),
                        self.model_dim as int,
                    )[k],
            decreases hidden@.len() - b,
        {
            let hrows = &hidden[b];
            let mut rows: Vec<Vec<i64>> = Vec::new();
            let mut t: usize = 0;
            while t < hrows.len()
                invariant
                    t <= hrows@.len(),
                    rows@.len() == t,
                    forall|k: int|
                        0 <= k < t ==> (#[trigger] rows@[k])@ == spec_scale_row(
                            spec_matvec(table, hrows@[k]@),
                            s as int,
                        ),
                decreases hrows@.len() - t,
            {
                proof {
                    assert(hrows.deep_view()[t as int] == hrows@[t as int]@);
                    assert(hidden@[b as int].deep_view()[t as int].len()
                        == self.base_model.decoder.d_model as nat);
                }
                let scores = matvec(&self.base_model.embeddings.ws, &hrows[t]);
                let scaled = scale_row(&scores, s);
                rows.push(scaled);
                t += 1;
            }
            proof {
                assert(rows.deep_view() =~= logits_view(
                    table,
                    hidden.deep_view(),
                    self.model_dim as int,
                )[b as int]);
            }
            r.push(rows);
            b += 1;
        }
        assert(r.deep_view() =~= logits_view(table, hidden.deep_view(), self.model_dim as int));
        r
    }

    /// One full pass whose decoder output is replaced by vocabulary logits:
    /// the decoder hidden state multiplied by the transposed embedding table
    /// and scaled by the inverse square root of the model width. Every other
    /// output field passes through unchanged.
    pub fn forward_t(
        &self,
        input_ids: Option<&Tensor2>,
        attention_mask: Option<&Tensor2>,
        encoder_outputs: Option<&Tensor3>,
        decoder_input_ids: Option<&Tensor2>,
        decoder_attention_mask: Option<&Tensor2>,
        input_embeds: Option<Tensor3>,
        decoder_input_embeds: Option<Tensor3>,
        old_layer_states: Option<Vec<(Option<LayerState>, Option<LayerState>)>>,
        train: bool,
    ) -> (r: T5ModelOutput)
        requires
            self.wf(),
            forward_inputs_wf(
                &self.base_model,
                input_ids,
                attention_mask,
                encoder_outputs,
                decoder_input_ids,
                input_embeds,
                decoder_input_embeds,
                old_layer_states,
            ),
        ensures
            ({
                let table = self.base_model.embeddings.ws.deep_view();
                let xdec = resolved_view(decoder_input_ids, decoder_input_embeds, table);
                let enc3 = self.base_model.eff_encoder_view(
                    encoder_outputs,
                    input_ids,
                    input_embeds,
                    attention_mask,
                );
                let hidden3 = base_decoder_view(
                    &self.base_model,
                    enc3,
                    cache_view(old_layer_states),
                    t2_opt_view(attention_mask),
                    xdec,
                );
                &&& (r.encoder_hidden_state is Some <==> encoder_outputs is None)
                &&& (encoder_outputs is None ==> r.encoder_hidden_state.unwrap().deep_view()
                    == enc3)
                &&& r.next_cache is Some
                &&& r.decoder_output.deep_view() == logits_view(
                    table,
                    hidden3,
                    self.model_dim as int,
                )
                &&& dec_forward_post(
                    self.base_model.decoder.layers@,
                    cache_view(old_layer_states),
                    enc3,
                    t2_opt_view(attention_mask),
                    xdec,
                    hidden3,
                    r.next_cache.unwrap()@,
                    self.base_model.decoder.d_model as nat,
                    self.base_model.decoder.inner as nat,
                )
            }),
    {
        let base_model_output = self.base_model.forward_t(
            input_ids,
            attention_mask,
            encoder_outputs,
            decoder_input_ids,
            decoder_attention_mask,
            input_embeds,
            decoder_input_embeds,
            old_layer_states,
            train,
        );
        proof {
            let table = self.base_model.embeddings.ws.deep_view();
            let xdec = resolved_view(decoder_input_ids, decoder_input_embeds, table);
            let enc3 = self.base_model.eff_encoder_view(
                encoder_outputs,
                input_ids,
                input_embeds,
                attention_mask,
            );
            assert(base_model_output.decoder_output.deep_view() =~= base_decoder_view(
                &self.base_model,
                enc3,
                cache_view(old_layer_states),
                t2_opt_view(attention_mask),
                xdec,
            ));
            assert forall|b: int| 0 <= b < base_model_output.decoder_output@.len() implies rows_wf(
                (#[trigger] base_model_output.decoder_output@[b]).deep_view(),
                self.base_model.decoder.d_model as nat,
            ) by {
                assert(base_model_output.decoder_output.deep_view()[b]
                    == base_model_output.decoder_output@[b].deep_view());
            }
        }
        let lm_logits = self.project_logits(&base_model_output.decoder_output);
        T5ModelOutput { decoder_output: lm_logits, ..base_model_output }
    }

    /// Run only the encoder over token ids: embed them through the shared
    /// table and return the contextualized source representation, ready to be
    /// reused across many decode steps.
    pub fn encode(&self, input_ids: &Tensor2, attention_mask: Option<&Tensor2>) -> (r: Tensor3)
        requires
            self.wf(),
            tokens_wf(input_ids.deep_view(), self.base_model.embeddings.ws@.len() as int),
            attention_mask matches Some(m) ==> m.deep_view().len() == input_ids@.len() && forall|
                b: int,
            |
                0 <= b < input_ids@.len() ==> (#[trigger] m.deep_view()[b]).len()
                    == input_ids.deep_view()[b].len(),
        ensures
            r.deep_view() == self.base_model.eff_encoder_view(
                Option::None,
                Option::Some(input_ids),
                Option::None,
                attention_mask,
            ),
    {
        let eres = self.base_model.encoder.forward_t(
            Option::Some(input_ids),
            attention_mask,
            Option::None,
            Option::None,
            Option::None,
            &self.base_model.embeddings,
            Option::None,
            false,
        );
        let eout = match eres {
            Result::Ok(o) => o,
            Result::Err(_) => {
                proof {
                    assert(false);
                }
                T5StackOutput {
                    hidden_state: Vec::new(),
                    next_cache: Option::None,
                    all_hidden_states: Option::None,
                    all_attentions: Option::None,
                }
            },
        };
        proof {
            assert(eout.hidden_state.deep_view() =~= self.base_model.eff_encoder_view(
                Option::None,
                Option::Some(input_ids),
                Option::None,
                attention_mask,
            ));
        }
        eout.hidden_state
    }
}

} // verus!
