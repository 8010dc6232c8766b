//! The agent step: telemetry in, one proposed action out.
//!
//! Features are built from the telemetry sample, pushed through the int8
//! layers of the model blob — int32 accumulation, saturating bias add,
//! ReLU and a right shift of six bits — and the first output neuron
//! becomes the score. Without usable weights a fixed heuristic scores
//! instead. Low memory or page faults ask for a cache trim; otherwise the
//! score maps onto a scheduler quantum.

use vstd::prelude::*;

use crate::action::{Action, ACTF_REQUIRES_SNAPSHOT, KIND_SET_QUANTUM, KIND_TRIM_CACHE};
use crate::model::{
    lemma_layer_offset_exact, lemma_layer_offset_mono, lemma_layer_offset_nonneg,
    lemma_layer_offset_saturates, spec_in_dim, spec_layer_offset, spec_out_dim,
    spec_sat_layer_offset, ModelHeader, WeightsLayout,
};
use crate::telemetry::Telemetry;

verus! {

pub const QUANTUM_BASE_US: i32 = 1000;
pub const QUANTUM_SCALE: i32 = 20;
pub const MEM_LOW_KB: u32 = 8192;
pub const PF_RATE_THRESH: u32 = 0;
pub const TRIM_BYTES: u64 = 1048576;

/// A model byte as the signed weight it encodes.
pub open spec fn spec_i8_of(b: u8) -> int {
    if b >= 128 {
        b - 256
    } else {
        b as int
    }
}

/// Clamp to the closed interval `[lo, hi]`.
pub open spec fn spec_clamp(v: int, lo: int, hi: int) -> int {
    if v < lo {
        lo
    } else if v > hi {
        hi
    } else {
        v
    }
}

/// The feature vector: run queue length, tick rate, free megabytes and
/// page-fault rate in the first four lanes, clipped to 127; zeros after.
pub open spec fn spec_features(tel: Telemetry, hidden: int) -> Seq<i8> {
    Seq::new(
        (if hidden < 256 {
            hidden
        } else {
            256
        }) as nat,
        |i: int|
            (if i == 0 {
                spec_clamp(tel.runq as int, 0, 127)
            } else if i == 1 {
                spec_clamp(tel.irq_rate as int, 0, 127)
            } else if i == 2 {
                spec_clamp(tel.free_kb as int / 1024, 0, 127)
            } else if i == 3 {
                spec_clamp(tel.pf_rate as int, 0, 127)
            } else {
                0
            }) as i8,
    )
}

/// The dot product of one weight row with the activations: the first `k`
/// lanes of row `row_base`.
pub open spec fn spec_row_acc(model: Seq<u8>, row_base: int, x: Seq<i8>, k: int) -> int
    decreases k,
{
    if k <= 0 {
        0
    } else {
        spec_row_acc(model, row_base, x, k - 1) + spec_i8_of(model[row_base + k - 1]) * x[k
            - 1]
    }
}

/// A little-endian 32-bit signed value in the model bytes.
pub open spec fn spec_i32_le(model: Seq<u8>, off: int) -> int {
    let u = model[off] + 256 * model[off + 1] + 65536 * model[off + 2] + 16777216 * model[off
        + 3];
    if u >= 0x80000000 {
        u - 0x100000000
    } else {
        u
    }
}

/// Saturating 32-bit addition.
pub open spec fn spec_sat_add32(a: int, b: int) -> int {
    if a + b > i32::MAX {
        i32::MAX as int
    } else if a + b < i32::MIN {
        i32::MIN as int
    } else {
        a + b
    }
}

/// ReLU, a six-bit right shift, and a clip to 127.
pub open spec fn spec_requant(v: int) -> int {
    let relu = if v < 0 {
        0
    } else {
        v
    };
    let shifted = relu / 64;
    if shifted > 127 {
        127
    } else {
        shifted
    }
}

/// One output lane of layer `l`: weights dotted with the activations,
/// the bias added saturating, then requantized.
pub open spec fn spec_layer_value(
    model: Seq<u8>,
    h: ModelHeader,
    x: Seq<i8>,
    l: int,
    oi: int,
) -> int {
    let w_off = 16 + spec_layer_offset(h, l);
    let b_off = w_off + spec_in_dim(h) * spec_out_dim(h, l);
    spec_requant(
        spec_sat_add32(
            spec_row_acc(model, w_off + oi * spec_in_dim(h), x, spec_in_dim(h)),
            spec_i32_le(model, b_off + 4 * oi),
        ),
    )
}

/// May layer `l` run on activations of length `x_len`?
pub open spec fn spec_layer_ok(h: ModelHeader, x_len: int, l: int) -> bool {
    &&& spec_in_dim(h) <= x_len
    &&& spec_out_dim(h, l) <= 256
    &&& spec_in_dim(h) > 0
    &&& spec_out_dim(h, l) > 0
}

/// The activations after the first `l` layers, together with whether the
/// forward pass is still running: a layer whose dimensions do not fit
/// stops the pass for good.
pub open spec fn spec_forward(
    model: Seq<u8>,
    h: ModelHeader,
    x0: Seq<i8>,
    l: int,
) -> (Seq<i8>, bool)
    decreases l,
{
    if l <= 0 {
        (x0, true)
    } else {
        let prev = spec_forward(model, h, x0, l - 1);
        if !prev.1 {
            prev
        } else if spec_layer_ok(h, prev.0.len() as int, l - 1) {
            (
                Seq::new(
                    spec_out_dim(h, l - 1) as nat,
                    |oi: int| spec_layer_value(model, h, prev.0, l - 1, oi) as i8,
                ),
                true,
            )
        } else {
            (prev.0, false)
        }
    }
}

/// Are there enough bytes behind the header for every layer?
pub open spec fn spec_has_weights(model: Seq<u8>, h: ModelHeader) -> bool {
    &&& h.dtype == 0
    &&& h.n_layers >= 1
    &&& spec_sat_layer_offset(h, h.n_layers as int) + 16 > 16
    &&& model.len() >= spec_sat_layer_offset(h, h.n_layers as int) + 16
}

/// The score: the first output lane of the forward pass, or the fixed
/// heuristic when the blob holds no usable weights.
pub open spec fn spec_score(model: Seq<u8>, h: ModelHeader, tel: Telemetry) -> int {
    if spec_has_weights(model, h) {
        let xf = spec_forward(model, h, spec_features(tel, h.hidden as int), h.n_layers as int);
        if xf.0.len() > 0 {
            xf.0[0] as int
        } else {
            0
        }
    } else {
        spec_clamp(
            tel.runq + tel.irq_rate as int / 2 - tel.pf_rate - (tel.free_kb as int / 1024) / 8,
            -127,
            127,
        )
    }
}

/// The action the agent proposes for one telemetry sample.
pub open spec fn spec_agent_action(model: Seq<u8>, h: ModelHeader, tel: Telemetry) -> (u8, u64) {
    if tel.free_kb < MEM_LOW_KB || tel.pf_rate > PF_RATE_THRESH {
        (KIND_TRIM_CACHE, TRIM_BYTES)
    } else {
        (
            KIND_SET_QUANTUM,
            spec_clamp(
                QUANTUM_BASE_US + spec_score(model, h, tel) * QUANTUM_SCALE,
                100,
                50000,
            ) as u64,
        )
    }
}

fn clamp_u32_127(v: u32) -> (r: i8)
    ensures
        r == spec_clamp(v as int, 0, 127),
{
    if v > 127 {
        127
    } else {
        v as i8
    }
}

/// One inference step: build features, run the layers that fit, score,
/// and choose between a cache trim and a quantum update. Every proposed
/// action carries the snapshot flag.
#[verifier::rlimit(100)]
pub fn infer_and_propose(h: &ModelHeader, tel: &Telemetry, model: &Vec<u8>) -> (a: Action)
    ensures
        a.flags == ACTF_REQUIRES_SNAPSHOT,
        (a.kind, a.param1) == spec_agent_action(model@, *h, *tel),
        a.param2 == 0,
        a.param3 == 0,
{
    let hidden: usize = if (h.hidden as usize) < 256 {
        h.hidden as usize
    } else {
        256
    };
    let mut x: Vec<i8> = Vec::new();
    let mut i: usize = 0;
    while i < hidden
        invariant
            i <= hidden,
            hidden == if (h.hidden as int) < 256 {
                h.hidden as int
            } else {
                256int
            },
            x@.len() == i,
            forall|k: int| 0 <= k < i ==> x@[k] == spec_features(*tel, h.hidden as int)[k],
        decreases hidden - i,
    {
        let v: i8 = if i == 0 {
            clamp_u32_127(tel.runq)
        } else if i == 1 {
            clamp_u32_127(tel.irq_rate)
        } else if i == 2 {
            clamp_u32_127(tel.free_kb / 1024)
        } else if i == 3 {
            clamp_u32_127(tel.pf_rate)
        } else {
            0
        };
        x.push(v);
        i = i + 1;
    }
    proof {
        assert(x@ =~= spec_features(*tel, h.hidden as int));
    }

    // Is the whole layer payload inside the blob?
    let mlen: usize = model.len();
    let has_weights: bool = match WeightsLayout::compute(h) {
        Some(w) => {
            if w.total_bytes > usize::MAX - 16 {
                false
            } else {
                w.total_bytes + 16 > 16 && mlen >= w.total_bytes + 16
            }
        },
        None => false,
    };
    proof {
        if h.dtype == 0 && h.n_layers >= 1 {
            lemma_layer_offset_nonneg(*h, h.n_layers as int);
        }
        assert(has_weights == spec_has_weights(model@, *h));
    }

    if has_weights {
        let ghost x0 = x@;
        let nl: usize = h.n_layers as usize;
        let mut l: usize = 0;
        let mut running: bool = true;
        proof {
            if spec_layer_offset(*h, nl as int) > usize::MAX {
                lemma_layer_offset_saturates(*h, nl as int);
                assert(false);
            }
            lemma_layer_offset_exact(*h, nl as int);
        }
        while l < nl
            invariant
                l <= nl,
                nl == h.n_layers,
                h.dtype == 0,
                spec_layer_offset(*h, nl as int) <= usize::MAX,
                spec_has_weights(model@, *h),
                model@.len() >= 16 + spec_layer_offset(*h, nl as int),
                (x@, running) == spec_forward(model@, *h, x0, l as int),
                x@.len() <= 256,
            decreases nl - l,
        {
            if running {
                let in_dim: usize = h.hidden as usize;
                let last_out: usize = if h.vocab != 0 {
                    h.vocab as usize
                } else {
                    h.hidden as usize
                };
                let out_dim: usize = if l + 1 == nl {
                    last_out
                } else {
                    h.hidden as usize
                };
                proof {
                    assert(in_dim == spec_in_dim(*h));
                    assert(out_dim == spec_out_dim(*h, l as int));
                }
                if in_dim > x.len() || out_dim > 256 || in_dim == 0 || out_dim == 0 {
                    running = false;
                } else {
                    let ghost prev = x@;
                    let new_x: Vec<i8> = layer_forward(model, h, &x, l, in_dim, out_dim);
                    x = new_x;
                    proof {
                        assert(x@ =~= Seq::new(
                            spec_out_dim(*h, l as int) as nat,
                            |k: int| spec_layer_value(model@, *h, prev, l as int, k) as i8,
                        ));
                    }
                }
            }
            l = l + 1;
        }

        let score: i32 = if x.len() > 0 {
            x[0] as i32
        } else {
            0
        };
        if tel.free_kb < MEM_LOW_KB || tel.pf_rate > PF_RATE_THRESH {
            return Action::new(KIND_TRIM_CACHE, ACTF_REQUIRES_SNAPSHOT, TRIM_BYTES, 0, 0);
        }
        let mut quantum: i32 = QUANTUM_BASE_US + score * QUANTUM_SCALE;
        if quantum < 100 {
            quantum = 100;
        }
        if quantum > 50000 {
            quantum = 50000;
        }
        Action::new(KIND_SET_QUANTUM, ACTF_REQUIRES_SNAPSHOT, quantum as u64, 0, 0)
    } else {
        // The fixed heuristic: reward a busy run queue and a lively tick
        // rate, punish page faults and abundant free memory.
        let runq: i64 = tel.runq as i64;
        let rate: i64 = tel.irq_rate as i64;
        let pf: i64 = tel.pf_rate as i64;
        let free_mb: i64 = (tel.free_kb / 1024) as i64;
        let mut score64: i64 = runq + rate / 2 - pf - free_mb / 8;
        if score64 < -127 {
            score64 = -127;
        }
        if score64 > 127 {
            score64 = 127;
        }
        let score: i32 = score64 as i32;
        if tel.free_kb < MEM_LOW_KB || tel.pf_rate > PF_RATE_THRESH {
            return Action::new(KIND_TRIM_CACHE, ACTF_REQUIRES_SNAPSHOT, TRIM_BYTES, 0, 0);
        }
        let mut quantum: i32 = QUANTUM_BASE_US + score * QUANTUM_SCALE;
        if quantum < 100 {
            quantum = 100;
        }
        if quantum > 50000 {
            quantum = 50000;
        }
        Action::new(KIND_SET_QUANTUM, ACTF_REQUIRES_SNAPSHOT, quantum as u64, 0, 0)
    }
}

/// One dense layer: for each output lane, the weight row dotted with the
/// activations, the bias added saturating, ReLU and requantization.
#[verifier::rlimit(100)]
fn layer_forward(
    model: &Vec<u8>,
    h: &ModelHeader,
    x: &Vec<i8>,
    l: usize,
    in_dim: usize,
    out_dim: usize,
) -> (r: Vec<i8>)
    requires
        h.dtype == 0,
        l < h.n_layers,
        spec_layer_offset(*h, h.n_layers as int) <= usize::MAX,
        model@.len() >= 16 + spec_layer_offset(*h, h.n_layers as int),
        in_dim == spec_in_dim(*h),
        out_dim == spec_out_dim(*h, l as int),
        0 < in_dim <= x@.len(),
        0 < out_dim <= 256,
        x@.len() <= 256,
    ensures
        r@.len() == out_dim,
        forall|oi: int|
            0 <= oi < out_dim ==> r@[oi] == spec_layer_value(model@, *h, x@, l as int, oi) as i8,
{
    let mlen: usize = model.len();
    proof {
        crate::model::lemma_layer_offsets_contiguous(*h, l as int);
        lemma_layer_offset_mono(*h, l as int + 1, h.n_layers as int);
        lemma_layer_offset_nonneg(*h, l as int);
        lemma_layer_offset_nonneg(*h, l as int + 1);
        vstd::arithmetic::mul::lemma_mul_nonnegative(
            spec_in_dim(*h),
            spec_out_dim(*h, l as int),
        );
        assert(in_dim * out_dim + 4 * out_dim == spec_layer_offset(*h, l as int + 1)
            - spec_layer_offset(*h, l as int));
        assert(16 + spec_layer_offset(*h, l as int) + in_dim * out_dim + 4 * out_dim <= mlen);
    }
    let w_off: usize = 16 + layer_offset_exec(h, l);
    let wb_bytes: usize = in_dim * out_dim;
    let b_off: usize = w_off + wb_bytes;
    let mut out: Vec<i8> = Vec::new();
    let mut oi: usize = 0;
    while oi < out_dim
        invariant
            oi <= out_dim,
            out@.len() == oi,
            in_dim == spec_in_dim(*h),
            out_dim == spec_out_dim(*h, l as int),
            0 < in_dim <= x@.len() <= 256,
            0 < out_dim <= 256,
            w_off == 16 + spec_layer_offset(*h, l as int),
            b_off == w_off + in_dim * out_dim,
            b_off + 4 * out_dim <= mlen,
            mlen == model@.len(),
            forall|k: int|
                0 <= k < oi ==> out@[k] == spec_layer_value(model@, *h, x@, l as int, k) as i8,
        decreases out_dim - oi,
    {
        proof {
            assert((oi + 1) * in_dim <= out_dim * in_dim) by (nonlinear_arith)
                requires
                    0 <= oi < out_dim,
                    0 < in_dim,
            ;
            assert(oi * in_dim + in_dim == (oi + 1) * in_dim) by (nonlinear_arith);
            assert(oi * in_dim >= 0) by (nonlinear_arith)
                requires
                    oi >= 0,
                    in_dim > 0,
            ;
        }
        let row_base: usize = w_off + oi * in_dim;
        let mut acc: i32 = 0;
        let mut p: usize = 0;
        while p < in_dim
            invariant
                p <= in_dim,
                in_dim <= x@.len(),
                row_base + in_dim <= b_off <= mlen,
                mlen == model@.len(),
                acc == spec_row_acc(model@, row_base as int, x@, p as int),
                -16384 * (p as int) <= acc <= 16384 * (p as int),
                in_dim <= 256,
            decreases in_dim - p,
        {
            let wb: u8 = model[row_base + p];
            let w: i32 = if wb >= 128 {
                (wb as i32) - 256
            } else {
                wb as i32
            };
            let xv: i32 = x[p] as i32;
            proof {
                assert(w == spec_i8_of(wb));
                assert(-16384 <= w * xv <= 16384) by (nonlinear_arith)
                    requires
                        -128 <= w <= 127,
                        -128 <= xv <= 127,
                ;
                assert(-16384 * (p as int) - 16384 >= -16384 * ((p + 1) as int))
                    by (nonlinear_arith);
                assert(16384 * (p as int) + 16384 <= 16384 * ((p + 1) as int))
                    by (nonlinear_arith);
            }
            acc = acc + w * xv;
            p = p + 1;
        }
        // The bias, little-endian, added with saturation.
        let bias_lo: usize = b_off + 4 * oi;
        let bu: u32 = (model[bias_lo] as u32) + 256 * (model[bias_lo + 1] as u32) + 65536 * (
        model[bias_lo + 2] as u32) + 16777216 * (model[bias_lo + 3] as u32);
        let bi: i64 = if bu >= 0x80000000 {
            (bu as i64) - 0x100000000
        } else {
            bu as i64
        };
        let sum: i64 = (acc as i64) + bi;
        let with_bias: i32 = if sum > (i32::MAX as i64) {
            i32::MAX
        } else if sum < (i32::MIN as i64) {
            i32::MIN
        } else {
            sum as i32
        };
        let relu: i32 = if with_bias < 0 {
            0
        } else {
            with_bias
        };
        let shifted: i32 = relu / 64;
        let clipped: i32 = if shifted > 127 {
            127
        } else {
            shifted
        };
        out.push(clipped as i8);
        proof {
            assert(with_bias == spec_sat_add32(
                spec_row_acc(model@, row_base as int, x@, in_dim as int),
                spec_i32_le(model@, bias_lo as int),
            ));
            assert(clipped == spec_layer_value(model@, *h, x@, l as int, oi as int));
        }
        oi = oi + 1;
    }
    out
}

/// The exact byte offset of layer `l`, once the whole layout is known to
/// fit the address space.
fn layer_offset_exec(h: &ModelHeader, l: usize) -> (r: usize)
    requires
        l < h.n_layers,
        spec_layer_offset(*h, h.n_layers as int) <= usize::MAX,
    ensures
        r == spec_layer_offset(*h, l as int),
{
    proof {
        lemma_layer_offset_mono(*h, l as int, h.n_layers as int);
        lemma_layer_offset_nonneg(*h, l as int);
    }
    let nl: usize = h.n_layers as usize;
    let hidden: usize = h.hidden as usize;
    let last_out: usize = if h.vocab != 0 {
        h.vocab as usize
    } else {
        hidden
    };
    let mut off: usize = 0;
    let mut k: usize = 0;
    while k < l
        invariant
            k <= l < nl,
            nl == h.n_layers,
            hidden == h.hidden,
            last_out == if h.vocab != 0 {
                h.vocab as int
            } else {
                h.hidden as int
            },
            off == spec_layer_offset(*h, k as int),
            spec_layer_offset(*h, h.n_layers as int) <= usize::MAX,
        decreases l - k,
    {
        let out_dim: usize = if k + 1 == nl {
            last_out
        } else {
            hidden
        };
        proof {
            assert(out_dim == spec_out_dim(*h, k as int));
            lemma_layer_offset_mono(*h, k as int + 1, h.n_layers as int);
            lemma_layer_offset_nonneg(*h, k as int);
            vstd::arithmetic::mul::lemma_mul_nonnegative(
                spec_in_dim(*h),
                spec_out_dim(*h, k as int),
            );
            assert(spec_layer_offset(*h, k as int + 1) == off + hidden * out_dim + 4
                * out_dim);
        }
        let wb: usize = hidden * out_dim;
        off = off + wb;
        off = off + 4 * out_dim;
        k = k + 1;
    }
    off
}

/// The dot product of row `i` of `a` with column `j` of `b`, over the
/// first `p` of the `k` inner lanes.
pub open spec fn spec_mat_dot(
    a: Seq<i8>,
    b: Seq<i8>,
    i: int,
    j: int,
    n: int,
    k: int,
    p: int,
) -> int
    decreases p,
{
    if p <= 0 {
        0
    } else {
        spec_mat_dot(a, b, i, j, n, k, p - 1) + a[i * k + p - 1] * b[(p - 1) * n + j]
    }
}

/// Plain int8 matrix multiplication with 32-bit accumulation:
/// `a` is `m x k`, `b` is `k x n`, the result `m x n`, all row major.
#[verifier::rlimit(100)]
pub fn matmul_int8(a: &Vec<i8>, b: &Vec<i8>, m: usize, n: usize, k: usize) -> (r: Vec<i32>)
    requires
        a@.len() == m * k,
        b@.len() == k * n,
        m * n <= usize::MAX,
        k <= 65536,
    ensures
        r@.len() == m * n,
        forall|i: int, j: int|
            0 <= i < m && 0 <= j < n ==> r@[i * n + j] == spec_mat_dot(
                a@,
                b@,
                i,
                j,
                n as int,
                k as int,
                k as int,
            ),
{
    let alen: usize = a.len();
    let blen: usize = b.len();
    let mut out: Vec<i32> = Vec::new();
    let mut i: usize = 0;
    while i < m
        invariant
            i <= m,
            alen == a@.len(),
            blen == b@.len(),
            a@.len() == m * k,
            b@.len() == k * n,
            m * n <= usize::MAX,
            k <= 65536,
            out@.len() == i * n,
            forall|i2: int, j2: int|
                0 <= i2 < i && 0 <= j2 < n ==> out@[i2 * n + j2] == spec_mat_dot(
                    a@,
                    b@,
                    i2,
                    j2,
                    n as int,
                    k as int,
                    k as int,
                ),
        decreases m - i,
    {
        proof {
            assert((i + 1) * n <= m * n && i * n + n == (i + 1) * n && (i + 1) * k <= m * k && i
                * k + k == (i + 1) * k && i * k >= 0 && i * n >= 0) by (nonlinear_arith)
                requires
                    0 <= i < m,
                    0 <= n,
                    0 <= k,
            ;
        }
        let mut j: usize = 0;
        while j < n
            invariant
                j <= n,
                i < m,
                alen == a@.len(),
                blen == b@.len(),
                a@.len() == m * k,
                b@.len() == k * n,
                m * n <= usize::MAX,
                k <= 65536,
                i * n + n <= m * n,
                i * k + k <= m * k,
                0 <= i * n,
                0 <= i * k,
                out@.len() == i * n + j,
                forall|i2: int, j2: int|
                    0 <= i2 < i && 0 <= j2 < n ==> out@[i2 * n + j2] == spec_mat_dot(
                        a@,
                        b@,
                        i2,
                        j2,
                        n as int,
                        k as int,
                        k as int,
                    ),
                forall|j2: int|
                    0 <= j2 < j ==> out@[i * n + j2] == spec_mat_dot(
                        a@,
                        b@,
                        i as int,
                        j2,
                        n as int,
                        k as int,
                        k as int,
                    ),
            decreases n - j,
        {
            let mut acc: i32 = 0;
            let mut p: usize = 0;
            while p < k
                invariant
                    p <= k <= 65536,
                    j < n,
                    alen == a@.len(),
                    blen == b@.len(),
                    a@.len() == m * k,
                    b@.len() == k * n,
                    i * k + k <= m * k,
                    0 <= i * k,
                    acc == spec_mat_dot(a@, b@, i as int, j as int, n as int, k as int, p as int),
                    -16384 * (p as int) <= acc <= 16384 * (p as int),
                decreases k - p,
            {
                proof {
                    assert(p * n + j < k * n && p * n >= 0 && (p + 1) * n <= k * n)
                        by (nonlinear_arith)
                        requires
                            0 <= p < k,
                            0 <= j < n,
                    ;
                }
                let av: i32 = a[i * k + p] as i32;
                let bv: i32 = b[p * n + j] as i32;
                proof {
                    assert(-16384 <= av * bv <= 16384) by (nonlinear_arith)
                        requires
                            -128 <= av <= 127,
                            -128 <= bv <= 127,
                    ;
                    assert(-16384 * (p as int) - 16384 >= -16384 * ((p + 1) as int)
                        && 16384 * (p as int) + 16384 <= 16384 * ((p + 1) as int))
                        by (nonlinear_arith);
                }
                acc = acc + av * bv;
                p = p + 1;
            }
            out.push(acc);
            proof {
                assert forall|i2: int, j2: int|
                    0 <= i2 < i && 0 <= j2 < n implies out@[i2 * n + j2] == spec_mat_dot(
                    a@,
                    b@,
                    i2,
                    j2,
                    n as int,
                    k as int,
                    k as int,
                ) by {
                    assert(0 <= i2 * n + j2 < i * n) by (nonlinear_arith)
                        requires
                            0 <= i2 < i,
                            0 <= j2 < n,
                    ;
                }
            }
            j = j + 1;
        }
        proof {
            assert forall|i2: int, j2: int|
                0 <= i2 < i + 1 && 0 <= j2 < n implies out@[i2 * n + j2] == spec_mat_dot(
                a@,
                b@,
                i2,
                j2,
                n as int,
                k as int,
                k as int,
            ) by {
                if i2 < i {
                    assert(i2 * n + j2 < i * n) by (nonlinear_arith)
                        requires
                            0 <= i2 < i,
                            0 <= j2 < n,
                    ;
                }
            }
        }
        i = i + 1;
    }
    out
}

} // verus!
