//! Model blob format: header, layer layout, offsets.
//!
//! A blob is a 16-byte header followed by densely packed layers: for each
//! layer, int8 weights of shape `out_dim x in_dim`, then `out_dim` 32-bit
//! biases. Offsets are sums over the preceding layers; the arithmetic
//! saturates at the address-space limit exactly as the running code does,
//! and the laws below speak of the unsaturated sums.

use vstd::prelude::*;

verus! {

/// The fixed 16-byte header: magic "AIMD", layer count, hidden width,
/// optional vocabulary width for the last layer, and the element type.
#[derive(Copy, Clone)]
pub struct ModelHeader {
    pub magic: [u8; 4],
    pub n_layers: u16,
    pub hidden: u16,
    pub vocab: u32,
    pub dtype: u8,
    pub _res: [u8; 3],
}

/// The bytes "AIMD".
pub open spec fn magic_bytes() -> Seq<u8> {
    seq![65u8, 73u8, 77u8, 68u8]
}

pub open spec fn spec_valid(h: ModelHeader) -> bool {
    &&& h.magic@ == magic_bytes()
    &&& h.n_layers >= 1
    &&& h.hidden >= 1
    &&& (h.dtype == 0 || h.dtype == 1)
}

/// Every layer reads `hidden` inputs.
pub open spec fn spec_in_dim(h: ModelHeader) -> int {
    h.hidden as int
}

/// Every layer writes `hidden` outputs, except the last, which writes
/// `vocab` outputs when a vocabulary width is given.
pub open spec fn spec_out_dim(h: ModelHeader, l: int) -> int {
    if l + 1 == h.n_layers && h.vocab != 0 {
        h.vocab as int
    } else {
        h.hidden as int
    }
}

/// Bytes of one layer: int8 weights plus 4-byte biases.
pub open spec fn spec_layer_bytes(h: ModelHeader, l: int) -> int {
    spec_in_dim(h) * spec_out_dim(h, l) + 4 * spec_out_dim(h, l)
}

/// Unsaturated byte offset of layer `l` within the payload.
pub open spec fn spec_layer_offset(h: ModelHeader, l: int) -> int
    decreases l,
{
    if l <= 0 {
        0
    } else {
        spec_layer_offset(h, l - 1) + spec_layer_bytes(h, l - 1)
    }
}

pub open spec fn spec_sat_add(a: int, b: int) -> int {
    if a + b > usize::MAX {
        usize::MAX as int
    } else {
        a + b
    }
}

pub open spec fn spec_sat_mul(a: int, b: int) -> int {
    if a * b > usize::MAX {
        usize::MAX as int
    } else {
        a * b
    }
}

/// The offset as the code computes it, with saturating arithmetic.
pub open spec fn spec_sat_layer_offset(h: ModelHeader, l: int) -> int
    decreases l,
{
    if l <= 0 {
        0
    } else {
        spec_sat_add(
            spec_sat_add(
                spec_sat_layer_offset(h, l - 1),
                spec_sat_mul(spec_in_dim(h), spec_out_dim(h, l - 1)),
            ),
            spec_sat_mul(spec_out_dim(h, l - 1), 4),
        )
    }
}

/// Layer offsets never go negative and only grow.
pub proof fn lemma_layer_offset_nonneg(h: ModelHeader, l: int)
    ensures
        0 <= spec_layer_offset(h, l),
        0 <= spec_sat_layer_offset(h, l) <= usize::MAX,
        spec_layer_offset(h, l) <= spec_layer_offset(h, l + 1),
    decreases l,
{
    vstd::arithmetic::mul::lemma_mul_nonnegative(spec_in_dim(h), spec_out_dim(h, l));
    if l > 0 {
        lemma_layer_offset_nonneg(h, l - 1);
        vstd::arithmetic::mul::lemma_mul_nonnegative(spec_in_dim(h), spec_out_dim(h, l - 1));
        vstd::arithmetic::mul::lemma_mul_nonnegative(spec_out_dim(h, l - 1), 4);
    }
}

/// While the true sum stays within the address space, the saturating
/// computation equals it.
pub proof fn lemma_layer_offset_exact(h: ModelHeader, l: int)
    requires
        spec_layer_offset(h, l) <= usize::MAX,
    ensures
        spec_sat_layer_offset(h, l) == spec_layer_offset(h, l),
    decreases l,
{
    if l > 0 {
        lemma_layer_offset_nonneg(h, l - 1);
        vstd::arithmetic::mul::lemma_mul_nonnegative(spec_in_dim(h), spec_out_dim(h, l - 1));
        vstd::arithmetic::mul::lemma_mul_nonnegative(spec_out_dim(h, l - 1), 4);
        lemma_layer_offset_exact(h, l - 1);
    }
}

/// Offsets grow with the layer index.
pub proof fn lemma_layer_offset_mono(h: ModelHeader, a: int, b: int)
    requires
        a <= b,
    ensures
        spec_layer_offset(h, a) <= spec_layer_offset(h, b),
    decreases b - a,
{
    if a < b {
        lemma_layer_offset_mono(h, a, b - 1);
        lemma_layer_offset_nonneg(h, b - 1);
    }
}

/// Once the true sum leaves the address space, the saturating sum pins
/// itself to the limit.
pub proof fn lemma_layer_offset_saturates(h: ModelHeader, l: int)
    requires
        spec_layer_offset(h, l) > usize::MAX,
    ensures
        spec_sat_layer_offset(h, l) == usize::MAX,
    decreases l,
{
    if l > 0 {
        lemma_layer_offset_nonneg(h, l - 1);
        vstd::arithmetic::mul::lemma_mul_nonnegative(spec_in_dim(h), spec_out_dim(h, l - 1));
        vstd::arithmetic::mul::lemma_mul_nonnegative(spec_out_dim(h, l - 1), 4);
        if spec_layer_offset(h, l - 1) > usize::MAX {
            lemma_layer_offset_saturates(h, l - 1);
        } else {
            lemma_layer_offset_exact(h, l - 1);
        }
    }
}

impl ModelHeader {
    /// Header sanity: magic, at least one layer, a nonzero width, and a
    /// known element type.
    pub fn valid(&self) -> (r: bool)
        ensures
            r == spec_valid(*self),
    {
        let ok: bool = self.magic[0] == 65 && self.magic[1] == 73 && self.magic[2] == 77
            && self.magic[3] == 68 && self.n_layers >= 1 && self.hidden >= 1 && (self.dtype == 0
            || self.dtype == 1);
        proof {
            if self.magic@[0] == 65 && self.magic@[1] == 73 && self.magic@[2] == 77
                && self.magic@[3] == 68 {
                assert(self.magic@ =~= magic_bytes());
            }
        }
        ok
    }

    /// Reads the header out of the first 16 bytes of a blob, little-endian;
    /// `None` when fewer than 16 bytes are there or the header they hold
    /// is not valid.
    pub fn read_unaligned(bytes: &[u8]) -> (r: Option<ModelHeader>)
        ensures
            match r {
                Some(h) => {
                    &&& spec_header_valid_bytes(bytes@)
                    &&& spec_valid(h)
                    &&& h.magic@ =~= bytes@.subrange(0, 4)
                    &&& h.n_layers == bytes@[4] + 256 * bytes@[5]
                    &&& h.hidden == bytes@[6] + 256 * bytes@[7]
                    &&& h.vocab == bytes@[8] + 256 * bytes@[9] + 65536 * bytes@[10]
                        + 16777216 * bytes@[11]
                    &&& h.dtype == bytes@[12]
                },
                None => !spec_header_valid_bytes(bytes@),
            },
    {
        if bytes.len() < 16 {
            return None;
        }
        let magic: [u8; 4] = [bytes[0], bytes[1], bytes[2], bytes[3]];
        let n_layers: u16 = (bytes[4] as u16) + 256 * (bytes[5] as u16);
        let hidden: u16 = (bytes[6] as u16) + 256 * (bytes[7] as u16);
        let vocab: u32 = (bytes[8] as u32) + 256 * (bytes[9] as u32) + 65536 * (bytes[10] as u32)
            + 16777216 * (bytes[11] as u32);
        let dtype: u8 = bytes[12];
        let h = ModelHeader {
            magic,
            n_layers,
            hidden,
            vocab,
            dtype,
            _res: [bytes[13], bytes[14], bytes[15]],
        };
        proof {
            assert(h.magic@ =~= bytes@.subrange(0, 4));
            if h.magic@ == magic_bytes() {
                assert(bytes@.subrange(0, 4) =~= magic_bytes());
            }
            if bytes@.subrange(0, 4) == magic_bytes() {
                assert(bytes@[0] == magic_bytes()[0] && bytes@[1] == magic_bytes()[1]
                    && bytes@[2] == magic_bytes()[2] && bytes@[3] == magic_bytes()[3]);
            }
        }
        if h.valid() {
            Some(h)
        } else {
            None
        }
    }
}

/// Do these bytes open with a valid header: the magic, at least one
/// layer, a nonzero width, a known element type?
pub open spec fn spec_header_valid_bytes(b: Seq<u8>) -> bool {
    &&& b.len() >= 16
    &&& b.subrange(0, 4) == magic_bytes()
    &&& b[4] + 256 * b[5] >= 1
    &&& b[6] + 256 * b[7] >= 1
    &&& (b[12] == 0 || b[12] == 1)
}

/// Total payload size of a model, as the code computes it.
pub struct WeightsLayout {
    pub total_bytes: usize,
}

fn sat_add_usize(a: usize, b: usize) -> (r: usize)
    ensures
        r == spec_sat_add(a as int, b as int),
{
    if a > usize::MAX - b {
        usize::MAX
    } else {
        a + b
    }
}

fn sat_mul_usize(a: usize, b: usize) -> (r: usize)
    ensures
        r == spec_sat_mul(a as int, b as int),
{
    if a == 0 {
        proof {
            assert(a * b == 0) by (nonlinear_arith)
                requires
                    a == 0,
            ;
        }
        return 0;
    }
    let q: usize = usize::MAX / a;
    proof {
        vstd::arithmetic::div_mod::lemma_fundamental_div_mod(usize::MAX as int, a as int);
        vstd::arithmetic::div_mod::lemma_mod_division_less_than_divisor(
            usize::MAX as int,
            a as int,
        );
        if b > q {
            assert(a * b > usize::MAX) by (nonlinear_arith)
                requires
                    a >= 1,
                    b >= q + 1,
                    usize::MAX as int == a * q + (usize::MAX as int) % (a as int),
                    (usize::MAX as int) % (a as int) < a,
            ;
        } else {
            assert(a * b <= usize::MAX) by (nonlinear_arith)
                requires
                    a >= 1,
                    0 <= b <= q,
                    usize::MAX as int == a * q + (usize::MAX as int) % (a as int),
                    (usize::MAX as int) % (a as int) >= 0,
            ;
        }
    }
    if b > q {
        usize::MAX
    } else {
        a * b
    }
}

/// The layer dimensions of layer `layer`, or `None` past the last layer.
pub fn layer_dims(h: &ModelHeader, layer: usize) -> (r: Option<(usize, usize)>)
    ensures
        match r {
            Some(d) => {
                &&& layer < h.n_layers
                &&& d.0 == spec_in_dim(*h)
                &&& d.1 == spec_out_dim(*h, layer as int)
            },
            None => layer >= h.n_layers,
        },
{
    let nl: usize = h.n_layers as usize;
    if layer >= nl {
        return None;
    }
    let hidden: usize = h.hidden as usize;
    let last_out: usize = if h.vocab != 0 {
        h.vocab as usize
    } else {
        hidden
    };
    let out_dim: usize = if layer + 1 == nl {
        last_out
    } else {
        hidden
    };
    Some((hidden, out_dim))
}

impl WeightsLayout {
    /// Sums weight and bias bytes across all layers, saturating at the
    /// address-space limit; `None` for element types other than int8 or an
    /// empty model.
    pub fn compute(h: &ModelHeader) -> (r: Option<WeightsLayout>)
        ensures
            match r {
                Some(w) => {
                    &&& h.dtype == 0
                    &&& h.n_layers >= 1
                    &&& w.total_bytes == spec_sat_layer_offset(*h, h.n_layers as int)
                    &&& spec_layer_offset(*h, h.n_layers as int) <= usize::MAX
                        ==> w.total_bytes == spec_layer_offset(*h, h.n_layers as int)
                },
                None => h.dtype != 0 || h.n_layers == 0,
            },
    {
        if h.dtype != 0 {
            return None;
        }
        let nl: usize = h.n_layers as usize;
        if nl == 0 {
            return None;
        }
        let hidden: usize = h.hidden as usize;
        let last_out: usize = if h.vocab != 0 {
            h.vocab as usize
        } else {
            hidden
        };
        let mut total: usize = 0;
        let mut l: usize = 0;
        while l < nl
            invariant
                l <= nl,
                nl == h.n_layers,
                hidden == h.hidden,
                last_out == if h.vocab != 0 {
                    h.vocab as int
                } else {
                    h.hidden as int
                },
                total == spec_sat_layer_offset(*h, l as int),
            decreases nl - l,
        {
            let out_dim: usize = if l + 1 == nl {
                last_out
            } else {
                hidden
            };
            proof {
                assert(out_dim == spec_out_dim(*h, l as int));
            }
            total = sat_add_usize(total, sat_mul_usize(hidden, out_dim));
            total = sat_add_usize(total, sat_mul_usize(out_dim, 4));
            l = l + 1;
        }
        proof {
            if spec_layer_offset(*h, h.n_layers as int) <= usize::MAX {
                lemma_layer_offset_exact(*h, h.n_layers as int);
            }
        }
        Some(WeightsLayout { total_bytes: total })
    }
}

/// Address of layer `layer`'s int8 weights within a blob at `base`, or
/// `None` for other element types or a layer out of range.
pub fn layer_ptr_int8(base: u64, h: &ModelHeader, layer: usize) -> (r: Option<u64>)
    requires
        h.dtype == 0 && layer < h.n_layers ==> base + 16 + spec_sat_layer_offset(
            *h,
            layer as int,
        ) <= u64::MAX,
    ensures
        match r {
            Some(p) => {
                &&& h.dtype == 0
                &&& layer < h.n_layers
                &&& p == base + 16 + spec_sat_layer_offset(*h, layer as int)
            },
            None => h.dtype != 0 || layer >= h.n_layers,
        },
{
    if h.dtype != 0 {
        return None;
    }
    let nl: usize = h.n_layers as usize;
    if layer >= nl {
        return None;
    }
    let off: usize = sat_offset_to(h, layer);
    Some(base + 16 + (off as u64))
}

/// Address of layer `layer`'s biases: right after that layer's weights.
pub fn bias_ptr_i32(base: u64, h: &ModelHeader, layer: usize) -> (r: Option<u64>)
    requires
        h.dtype == 0 && layer < h.n_layers ==> base + 16 + spec_sat_add(
            spec_sat_layer_offset(*h, layer as int),
            spec_sat_mul(spec_in_dim(*h), spec_out_dim(*h, layer as int)),
        ) <= u64::MAX,
    ensures
        match r {
            Some(p) => {
                &&& h.dtype == 0
                &&& layer < h.n_layers
                &&& p == base + 16 + spec_sat_add(
                    spec_sat_layer_offset(*h, layer as int),
                    spec_sat_mul(spec_in_dim(*h), spec_out_dim(*h, layer as int)),
                )
            },
            None => h.dtype != 0 || layer >= h.n_layers,
        },
{
    if h.dtype != 0 {
        return None;
    }
    let nl: usize = h.n_layers as usize;
    if layer >= nl {
        return None;
    }
    let off: usize = sat_offset_to(h, layer);
    let hidden: usize = h.hidden as usize;
    let out_dim: usize = match layer_dims(h, layer) {
        Some(d) => d.1,
        None => {
            return None;
        },
    };
    let off2: usize = sat_add_usize(off, sat_mul_usize(hidden, out_dim));
    Some(base + 16 + (off2 as u64))
}

/// The saturating offset sum over layers before `layer`.
fn sat_offset_to(h: &ModelHeader, layer: usize) -> (r: usize)
    requires
        layer < h.n_layers,
    ensures
        r == spec_sat_layer_offset(*h, layer as int),
{
    let nl: usize = h.n_layers as usize;
    let hidden: usize = h.hidden as usize;
    let last_out: usize = if h.vocab != 0 {
        h.vocab as usize
    } else {
        hidden
    };
    let mut off: usize = 0;
    let mut l: usize = 0;
    while l < layer
        invariant
            l <= layer < nl,
            nl == h.n_layers,
            hidden == h.hidden,
            last_out == if h.vocab != 0 {
                h.vocab as int
            } else {
                h.hidden as int
            },
            off == spec_sat_layer_offset(*h, l as int),
        decreases layer - l,
    {
        let out_dim: usize = if l + 1 == nl {
            last_out
        } else {
            hidden
        };
        proof {
            assert(out_dim == spec_out_dim(*h, l as int));
        }
        off = sat_add_usize(off, sat_mul_usize(hidden, out_dim));
        off = sat_add_usize(off, sat_mul_usize(out_dim, 4));
        l = l + 1;
    }
    off
}

/// Consecutive layer offsets differ by exactly that layer's bytes:
/// `in_dim * out_dim` weight bytes plus `4 * out_dim` bias bytes.
pub proof fn lemma_layer_offsets_contiguous(h: ModelHeader, l: int)
    requires
        0 <= l < h.n_layers,
    ensures
        spec_layer_offset(h, l + 1) - spec_layer_offset(h, l) == spec_in_dim(h) * spec_out_dim(
            h,
            l,
        ) + 4 * spec_out_dim(h, l),
{
}

/// The weights of each layer end where its biases begin, the biases end
/// where the next layer's weights begin, and the layers together cover
/// exactly the total byte count, starting at the payload offset 16.
pub proof fn lemma_layout_covers_total(h: ModelHeader)
    requires
        spec_valid(h),
        h.dtype == 0,
        spec_layer_offset(h, h.n_layers as int) <= usize::MAX,
    ensures
        forall|l: int|
            0 <= l < h.n_layers ==> #[trigger] spec_layer_offset(h, l + 1) == (
            spec_layer_offset(h, l) + spec_in_dim(h) * spec_out_dim(h, l)) + 4 * spec_out_dim(
                h,
                l,
            ),
        spec_sat_layer_offset(h, h.n_layers as int) == spec_layer_offset(h, h.n_layers as int),
{
    lemma_layer_offset_exact(h, h.n_layers as int);
}

} // verus!
