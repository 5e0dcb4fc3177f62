//! The generic autoregressive entry point a reusable decoding loop calls each
//! step: it dispatches on the cache kind, forwards to the
//! conditional-generation head, and wraps the next cache back into this
//! model's variant.

use vstd::prelude::*;

use crate::attention::LayerState;
use crate::encoder::{cache_view, dec_forward_post, resolved_view, t2_opt_view};
use crate::linalg::{Tensor2, Tensor3};
use crate::t5_model::{
    base_decoder_view, forward_inputs_wf, logits_view, T5ForConditionalGeneration,
};
use crate::ModelError;

verus! {

/// A decoding loop's cache, tagged by the model family that produced it.
pub enum Cache {
    /// No cache yet: the first decode step.
    Empty,
    /// A T5 cache: one `(self, cross)` pair per decoder layer.
    T5Cache(Option<Vec<(Option<LayerState>, Option<LayerState>)>>),
    /// A cache produced by some other model family; never valid here.
    OtherModelCache,
}

/// What the generic entry point returns: logits for the new positions and
/// the cache to hand back on the next step.
pub struct LMModelOutput {
    /// Vocabulary logits, batch x new positions x vocabulary.
    pub lm_logits: Tensor3,
    /// The cache reflecting the state after this step.
    pub cache: Cache,
}

impl T5ForConditionalGeneration {
    /// One decode step for a generic decoding loop.
    ///
    /// A `T5Cache` is threaded into the decoder, an `Empty` cache decodes
    /// from scratch, and any other cache kind is refused with a value error —
    /// never a silent fallback. On success the next cache comes back wrapped
    /// in `T5Cache`, ready to be handed to the following step unchanged.
    /// `token_type_ids`, `position_ids` and `input_embeds` take no part in a
    /// T5 pass; `train` has no effect on the deterministic kernel.
    #[allow(unused_variables)]
    pub fn lm_forward_t(
        &self,
        input_ids: Option<&Tensor2>,
        cache: Cache,
        attention_mask: Option<&Tensor2>,
        token_type_ids: Option<&Tensor2>,
        position_ids: Option<&Tensor2>,
        input_embeds: Option<&Tensor3>,
        encoder_outputs: Option<&Tensor3>,
        decoder_input_ids: Option<&Tensor2>,
        train: bool,
    ) -> (r: Result<LMModelOutput, ModelError>)
        requires
            self.wf(),
            cache matches Cache::T5Cache(states) ==> forward_inputs_wf(
                &self.base_model,
                input_ids,
                attention_mask,
                encoder_outputs,
                decoder_input_ids,
                Option::<Tensor3>::None,
                Option::<Tensor3>::None,
                states,
            ),
            cache is Empty ==> forward_inputs_wf(
                &self.base_model,
                input_ids,
                attention_mask,
                encoder_outputs,
                decoder_input_ids,
                Option::<Tensor3>::None,
                Option::<Tensor3>::None,
                Option::None,
            ),
        ensures
            r is Err <==> cache is OtherModelCache,
            cache is OtherModelCache ==> (r matches Err(ModelError::ValueError(m)) && m@
                == "Cache not compatible with T5 Model"@),
            r matches Ok(out) ==> ({
                let states = match cache {
                    Cache::T5Cache(states) => states,
                    _ => Option::None,
                };
                let table = self.base_model.embeddings.ws.deep_view();
                let xdec = resolved_view(decoder_input_ids, Option::<Tensor3>::None, table);
                let enc3 = self.base_model.eff_encoder_view(
                    encoder_outputs,
                    input_ids,
                    Option::<Tensor3>::None,
                    attention_mask,
                );
                let hidden3 = base_decoder_view(
                    &self.base_model,
                    enc3,
                    cache_view(states),
                    t2_opt_view(attention_mask),
                    xdec,
                );
                &&& out.lm_logits.deep_view() == logits_view(table, hidden3, self.model_dim as int)
                &&& out.cache matches Cache::T5Cache(next)
                &&& (out.cache matches Cache::T5Cache(next) ==> next is Some && dec_forward_post(
                    self.base_model.decoder.layers@,
                    cache_view(states),
                    enc3,
                    t2_opt_view(attention_mask),
                    xdec,
                    hidden3,
                    next.unwrap()@,
                    self.base_model.decoder.d_model as nat,
                    self.base_model.decoder.inner as nat,
                ))
            }),
    {
        let base_model_output = match cache {
            Cache::T5Cache(cached_layer_states) => self.forward_t(
                input_ids,
                attention_mask,
                encoder_outputs,
                decoder_input_ids,
                Option::None,
                Option::None,
                Option::None,
                cached_layer_states,
                train,
            ),
            Cache::Empty => self.forward_t(
                input_ids,
                attention_mask,
                encoder_outputs,
                decoder_input_ids,
                Option::None,
                Option::None,
                Option::None,
                Option::None,
                train,
            ),
            Cache::OtherModelCache => {
                return Result::Err(
                    ModelError::ValueError("Cache not compatible with T5 Model".to_string()),
                );
            },
        };
        Result::Ok(
            LMModelOutput {
                lm_logits: base_model_output.decoder_output,
                cache: Cache::T5Cache(base_model_output.next_cache),
            },
        )
    }
}

} // verus!
