//! Attention-layer weights, per-layer cache state, and the layer semantics of
//! the reference kernel.
//!
//! Each layer attends with uniform weights: a context is the wrapping sum of
//! the value projections of the attended positions, mapped back to model width
//! by the output projection and added to the residual stream. Decoder
//! self-attention is causal — position `i` attends to positions `0..=i` — and
//! that is exactly what the key/value cache exploits: the value projections of
//! past positions are stored, so a later call only projects the new positions.

use vstd::prelude::*;

use crate::linalg::{
    mat_wf, masked_sum, matvec, opt_masked_vsum, proj_rows, proj_seq, spec_matvec, spec_vadd,
    vadd_vec, vsum_upto, Tensor2, Tensor3,
};

verus! {

/// Projection weights of one attention block: key, value and output.
pub struct AttnWeights {
    /// Key projection, `inner x d_model`.
    pub wk: Tensor2,
    /// Value projection, `inner x d_model`.
    pub wv: Tensor2,
    /// Output projection, `d_model x inner`.
    pub wo: Tensor2,
}

/// The mathematical view of one attention block's weights.
pub ghost struct AttnView {
    /// Key projection.
    pub wk: Seq<Seq<i64>>,
    /// Value projection.
    pub wv: Seq<Seq<i64>>,
    /// Output projection.
    pub wo: Seq<Seq<i64>>,
}

impl View for AttnWeights {
    type V = AttnView;

    open spec fn view(&self) -> AttnView {
        AttnView { wk: self.wk.deep_view(), wv: self.wv.deep_view(), wo: self.wo.deep_view() }
    }
}

/// The key and value projections map model width to inner width, and the
/// output projection maps back.
pub open spec fn attn_wf(w: AttnView, d_model: nat, inner: nat) -> bool {
    &&& mat_wf(w.wk, inner, d_model)
    &&& mat_wf(w.wv, inner, d_model)
    &&& mat_wf(w.wo, d_model, inner)
}

/// Cached key and value projections of one attention block: batch x positions
/// x inner width.
pub struct LayerState {
    /// Key projections of the already-seen positions.
    pub prev_key: Tensor3,
    /// Value projections of the already-seen positions.
    pub prev_value: Tensor3,
}

/// The mathematical view of a cache entry.
pub ghost struct LayerStateV {
    /// Key projections, batch x positions x inner.
    pub keys: Seq<Seq<Seq<i64>>>,
    /// Value projections, batch x positions x inner.
    pub vals: Seq<Seq<Seq<i64>>>,
}

impl View for LayerState {
    type V = LayerStateV;

    open spec fn view(&self) -> LayerStateV {
        LayerStateV { keys: self.prev_key.deep_view(), vals: self.prev_value.deep_view() }
    }
}

/// One decoder layer's inputs for a single batch element: its weights, the
/// cached self-attention projections, and the effective cross-attention
/// projections of the encoder output.
pub ghost struct DecLayerCtx {
    /// Self-attention weights.
    pub sw: AttnView,
    /// Cross-attention weights.
    pub cw: AttnView,
    /// Cached self-attention key projections of past positions.
    pub past_keys: Seq<Seq<i64>>,
    /// Cached self-attention value projections of past positions.
    pub past_vals: Seq<Seq<i64>>,
    /// Cross-attention key projections of the encoder output.
    pub cross_keys: Seq<Seq<i64>>,
    /// Cross-attention value projections of the encoder output.
    pub cross_vals: Seq<Seq<i64>>,
}

/// One encoder layer: every position receives the output projection of the
/// masked sum of all value projections, added to its residual.
pub open spec fn enc_layer_out(
    w: AttnView,
    mask: Option<Seq<i64>>,
    xs: Seq<Seq<i64>>,
) -> Seq<Seq<i64>> {
    let vals = proj_seq(w.wv, xs);
    let ctx = spec_matvec(w.wo, opt_masked_vsum(w.wv.len(), vals, mask));
    Seq::new(xs.len(), |i: int| spec_vadd(xs[i], ctx))
}

/// One decoder layer over the new positions `xs`, given cached value
/// projections of past positions: position `i` of `xs` attends to every past
/// position and to `xs[0..=i]`, and every position receives the same masked
/// cross-attention context.
pub open spec fn dec_layer_out(
    sw: AttnView,
    cw: AttnView,
    past_vals: Seq<Seq<i64>>,
    cross_vals: Seq<Seq<i64>>,
    mask: Option<Seq<i64>>,
    xs: Seq<Seq<i64>>,
) -> Seq<Seq<i64>> {
    let all_vals = past_vals + proj_seq(sw.wv, xs);
    let cross_ctx = spec_matvec(cw.wo, opt_masked_vsum(cw.wv.len(), cross_vals, mask));
    Seq::new(
        xs.len(),
        |i: int|
            spec_vadd(
                spec_vadd(
                    xs[i],
                    spec_matvec(sw.wo, vsum_upto(sw.wv.len(), all_vals, past_vals.len() + i + 1)),
                ),
                cross_ctx,
            ),
    )
}

/// One decoder layer for one batch element.
///
/// Returns the layer output rows, the extended self-attention cache (keys,
/// values), and the effective cross-attention projections (keys, values).
pub fn dec_layer_batch(
    sw: &AttnWeights,
    cw: &AttnWeights,
    xs: &Vec<Vec<i64>>,
    past: Option<(&Vec<Vec<i64>>, &Vec<Vec<i64>>)>,
    cross: Option<(&Vec<Vec<i64>>, &Vec<Vec<i64>>)>,
    enc: &Vec<Vec<i64>>,
    mask: Option<&Vec<i64>>,
    d_model: usize,
    inner: usize,
) -> (res: (Vec<Vec<i64>>, Vec<Vec<i64>>, Vec<Vec<i64>>, Vec<Vec<i64>>, Vec<Vec<i64>>))
    requires
        attn_wf(sw@, d_model as nat, inner as nat),
        attn_wf(cw@, d_model as nat, inner as nat),
        mat_wf(xs.deep_view(), xs@.len() as nat, d_model as nat),
        match past {
            Option::Some((pk, pv)) => {
                &&& mat_wf(pk.deep_view(), pk@.len() as nat, inner as nat)
                &&& mat_wf(pv.deep_view(), pv@.len() as nat, inner as nat)
                &&& pk@.len() == pv@.len()
            },
            Option::None => true,
        },
        match cross {
            Option::Some((ck, cv)) => {
                &&& mat_wf(ck.deep_view(), ck@.len() as nat, inner as nat)
                &&& mat_wf(cv.deep_view(), cv@.len() as nat, inner as nat)
                &&& ck@.len() == cv@.len()
                &&& mask is Some ==> mask.unwrap()@.len() == cv@.len()
            },
            Option::None => {
                &&& mat_wf(enc.deep_view(), enc@.len() as nat, d_model as nat)
                &&& mask is Some ==> mask.unwrap()@.len() == enc@.len()
            },
        },
    ensures
        ({
            let past_keys = match past {
                Option::Some((pk, pv)) => pk.deep_view(),
                Option::None => Seq::<Seq<i64>>::empty(),
            };
            let past_vals = match past {
                Option::Some((pk, pv)) => pv.deep_view(),
                Option::None => Seq::<Seq<i64>>::empty(),
            };
            let cross_keys = match cross {
                Option::Some((ck, cv)) => ck.deep_view(),
                Option::None => proj_seq(cw@.wk, enc.deep_view()),
            };
            let cross_vals = match cross {
                Option::Some((ck, cv)) => cv.deep_view(),
                Option::None => proj_seq(cw@.wv, enc.deep_view()),
            };
            let mask_v = match mask {
                Option::Some(m) => Option::Some(m@),
                Option::None => Option::<Seq<i64>>::None,
            };
            &&& res.0.deep_view() == dec_layer_out(sw@, cw@, past_vals, cross_vals, mask_v, xs.deep_view())
            &&& res.1.deep_view() == past_keys + proj_seq(sw@.wk, xs.deep_view())
            &&& res.2.deep_view() == past_vals + proj_seq(sw@.wv, xs.deep_view())
            &&& res.3.deep_view() == cross_keys
            &&& res.4.deep_view() == cross_vals
            &&& mat_wf(res.0.deep_view(), xs@.len() as nat, d_model as nat)
            &&& mat_wf(res.1.deep_view(), (past_keys.len() + xs@.len()) as nat, inner as nat)
            &&& mat_wf(res.2.deep_view(), (past_vals.len() + xs@.len()) as nat, inner as nat)
            &&& mat_wf(res.3.deep_view(), cross_keys.len() as nat, inner as nat)
            &&& mat_wf(res.4.deep_view(), cross_vals.len() as nat, inner as nat)
        }),
{
    broadcast use crate::linalg::lemma_row_deep_view;

    let ghost past_vals_g = match past {
        Option::Some((pk, pv)) => pv.deep_view(),
        Option::None => Seq::<Seq<i64>>::empty(),
    };
    let ghost mask_v = match mask {
        Option::Some(m) => Option::Some(m@),
        Option::None => Option::<Seq<i64>>::None,
    };

    // Effective cross-attention projections.
    let (cross_k, cross_v): (Vec<Vec<i64>>, Vec<Vec<i64>>) = match cross {
        Option::Some((ck, cv)) => (crate::linalg::copy_rows(ck), crate::linalg::copy_rows(cv)),
        Option::None => (proj_rows(&cw.wk, enc, d_model), proj_rows(&cw.wv, enc, d_model)),
    };
    let cross_sum = masked_sum(&cross_v, mask, inner);
    let cross_ctx = matvec(&cw.wo, &cross_sum);

    // Self-attention projections of the new positions.
    let new_keys = proj_rows(&sw.wk, xs, d_model);
    let new_vals = proj_rows(&sw.wv, xs, d_model);

    // Extended self-attention cache.
    let (mut next_k, mut next_v, mut acc): (Vec<Vec<i64>>, Vec<Vec<i64>>, Vec<i64>) = match past {
        Option::Some((pk, pv)) => (
            crate::linalg::copy_rows(pk),
            crate::linalg::copy_rows(pv),
            masked_sum(pv, Option::None, inner),
        ),
        Option::None => (Vec::new(), Vec::new(), crate::linalg::zero_vec(inner)),
    };
    let p: usize = next_v.len();
    let ghost all_keys = past_keys_of(past) + proj_seq(sw@.wk, xs.deep_view());
    let ghost all_vals = past_vals_g + proj_seq(sw@.wv, xs.deep_view());
    proof {
        crate::linalg::lemma_vsum_upto_prefix(inner as nat, past_vals_g, all_vals, p as int);
        assert forall|k: int| 0 <= k < p implies (#[trigger] next_k@[k])@ == all_keys[k] by {
            let (pk, pv) = past.unwrap();
            assert(pk.deep_view()[k] == pk@[k]@);
        }
        assert forall|k: int| 0 <= k < p implies (#[trigger] next_v@[k])@ == all_vals[k] by {
            let (pk, pv) = past.unwrap();
            assert(pv.deep_view()[k] == pv@[k]@);
        }
        assert forall|k: int| 0 <= k < p implies (#[trigger] next_k@[k])@.len() == inner by {
            assert(next_k@[k]@ == all_keys[k]);
            let (pk, pv) = past.unwrap();
            assert(pk.deep_view()[k].len() == inner as nat);
        }
        assert forall|k: int| 0 <= k < p implies (#[trigger] next_v@[k])@.len() == inner by {
            assert(next_v@[k]@ == all_vals[k]);
            let (pk, pv) = past.unwrap();
            assert(pv.deep_view()[k].len() == inner as nat);
        }
    }

    let mut out: Vec<Vec<i64>> = Vec::new();
    let mut t: usize = 0;
    while t < xs.len()
        invariant
            t <= xs@.len(),
            out@.len() == t,
            acc@.len() == inner,
            acc@ == vsum_upto(inner as nat, all_vals, p + t),
            next_k@.len() == p + t,
            next_v@.len() == p + t,
            forall|k: int| 0 <= k < p + t ==> (#[trigger] next_k@[k])@.len() == inner,
            forall|k: int| 0 <= k < p + t ==> (#[trigger] next_v@[k])@.len() == inner,
            forall|k: int| 0 <= k < p + t ==> (#[trigger] next_k@[k])@ == all_keys[k],
            forall|k: int| 0 <= k < p + t ==> (#[trigger] next_v@[k])@ == all_vals[k],
            forall|k: int| 0 <= k < t ==> (#[trigger] out@[k])@ == dec_layer_out(
                sw@,
                cw@,
                past_vals_g,
                cross_v.deep_view(),
                mask_v,
                xs.deep_view(),
            )[k],
            forall|k: int| 0 <= k < t ==> (#[trigger] out@[k])@.len() == d_model,
        decreases xs@.len() - t,
    {
        proof {
            assert(xs.deep_view()[t as int] == xs@[t as int]@);
            assert(xs.deep_view()[t as int].len() == d_model as nat);
            assert(new_vals.deep_view()[t as int] == new_vals@[t as int]@);
            assert(new_keys.deep_view()[t as int] == new_keys@[t as int]@);
            assert(new_vals.deep_view()[t as int].len() == inner as nat);
            assert(new_keys.deep_view()[t as int].len() == inner as nat);
        }
        let xv = &xs[t];
        acc = vadd_vec(&acc, &new_vals[t]);
        assert(acc@ == vsum_upto(inner as nat, all_vals, p + t + 1)) by {
            assert(all_vals[p + t] == new_vals.deep_view()[t as int]);
        }
        let self_ctx = matvec(&sw.wo, &acc);
        let row = vadd_vec(&vadd_vec(xv, &self_ctx), &cross_ctx);
        assert(row@ == dec_layer_out(
            sw@,
            cw@,
            past_vals_g,
            cross_v.deep_view(),
            mask_v,
            xs.deep_view(),
        )[t as int]);
        out.push(row);
        let krow = crate::linalg::copy_row(&new_keys[t]);
        let vrow = crate::linalg::copy_row(&new_vals[t]);
        next_k.push(krow);
        next_v.push(vrow);
        t += 1;
    }
    assert(out.deep_view() =~= dec_layer_out(
        sw@,
        cw@,
        past_vals_g,
        cross_v.deep_view(),
        mask_v,
        xs.deep_view(),
    ));
    assert(next_k.deep_view() =~= past_keys_of(past) + proj_seq(sw@.wk, xs.deep_view()));
    assert(next_v.deep_view() =~= past_vals_g + proj_seq(sw@.wv, xs.deep_view()));
    (out, next_k, next_v, cross_k, cross_v)
}

/// The cached key projections, or nothing on the first call.
pub open spec fn past_keys_of(past: Option<(&Vec<Vec<i64>>, &Vec<Vec<i64>>)>) -> Seq<Seq<i64>> {
    match past {
        Option::Some((pk, pv)) => pk.deep_view(),
        Option::None => Seq::<Seq<i64>>::empty(),
    }
}

/// One encoder layer for one batch element.
pub fn enc_layer_batch(
    w: &AttnWeights,
    xs: &Vec<Vec<i64>>,
    mask: Option<&Vec<i64>>,
    d_model: usize,
    inner: usize,
) -> (res: Vec<Vec<i64>>)
    requires
        attn_wf(w@, d_model as nat, inner as nat),
        mat_wf(xs.deep_view(), xs@.len() as nat, d_model as nat),
        mask is Some ==> mask.unwrap()@.len() == xs@.len(),
    ensures
        res.deep_view() == enc_layer_out(
            w@,
            match mask {
                Option::Some(m) => Option::Some(m@),
                Option::None => Option::<Seq<i64>>::None,
            },
            xs.deep_view(),
        ),
        mat_wf(res.deep_view(), xs@.len() as nat, d_model as nat),
{
    broadcast use crate::linalg::lemma_row_deep_view;

    let ghost mask_v = match mask {
        Option::Some(m) => Option::Some(m@),
        Option::None => Option::<Seq<i64>>::None,
    };
    let vals = proj_rows(&w.wv, xs, d_model);
    let vsum = masked_sum(&vals, mask, inner);
    let ctx = matvec(&w.wo, &vsum);
    let mut out: Vec<Vec<i64>> = Vec::new();
    let mut t: usize = 0;
    while t < xs.len()
        invariant
            t <= xs@.len(),
            out@.len() == t,
            forall|k: int| 0 <= k < t ==> (#[trigger] out@[k])@ == enc_layer_out(
                w@,
                mask_v,
                xs.deep_view(),
            )[k],
            forall|k: int| 0 <= k < t ==> (#[trigger] out@[k])@.len() == d_model,
        decreases xs@.len() - t,
    {
        proof {
            assert(xs.deep_view()[t as int] == xs@[t as int]@);
            assert(xs.deep_view()[t as int].len() == d_model as nat);
        }
        let row = vadd_vec(&xs[t], &ctx);
        out.push(row);
        t += 1;
    }
    assert(out.deep_view() =~= enc_layer_out(w@, mask_v, xs.deep_view()));
    out
}

} // verus!
