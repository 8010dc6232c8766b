use kernel_core::model::{layer_dims, layer_ptr_int8, bias_ptr_i32, ModelHeader, WeightsLayout};

fn header(n_layers: u16, hidden: u16, vocab: u32, dtype: u8) -> ModelHeader {
    ModelHeader { magic: *b"AIMD", n_layers, hidden, vocab, dtype, _res: [0; 3] }
}

#[test]
fn header_validation_checks_each_field() {
    assert!(header(1, 4, 0, 0).valid());
    assert!(header(3, 16, 100, 1).valid());
    assert!(!header(0, 4, 0, 0).valid());
    assert!(!header(1, 0, 0, 0).valid());
    assert!(!header(1, 4, 0, 2).valid());
    let mut bad = header(1, 4, 0, 0);
    bad.magic = *b"AIMX";
    assert!(!bad.valid());
}

#[test]
fn header_reads_little_endian_fields() {
    let mut bytes = Vec::new();
    bytes.extend_from_slice(b"AIMD");
    bytes.extend_from_slice(&2u16.to_le_bytes());
    bytes.extend_from_slice(&8u16.to_le_bytes());
    bytes.extend_from_slice(&300u32.to_le_bytes());
    bytes.push(0);
    bytes.extend_from_slice(&[0, 0, 0]);
    let h = ModelHeader::read_unaligned(&bytes).unwrap();
    assert_eq!(h.magic, *b"AIMD");
    assert_eq!(h.n_layers, 2);
    assert_eq!(h.hidden, 8);
    assert_eq!(h.vocab, 300);
    assert_eq!(h.dtype, 0);
    assert!(h.valid());
    assert!(ModelHeader::read_unaligned(&bytes[..15]).is_none());
    // Sixteen bytes that decode to an invalid header give nothing.
    assert!(ModelHeader::read_unaligned(&[0u8; 16]).is_none());
    let mut no_layers = bytes.clone();
    no_layers[4] = 0;
    no_layers[5] = 0;
    assert!(ModelHeader::read_unaligned(&no_layers).is_none());
}

#[test]
fn layer_dims_use_hidden_until_the_last_layer() {
    let h = header(3, 8, 100, 0);
    assert_eq!(layer_dims(&h, 0), Some((8, 8)));
    assert_eq!(layer_dims(&h, 1), Some((8, 8)));
    assert_eq!(layer_dims(&h, 2), Some((8, 100)));
    assert_eq!(layer_dims(&h, 3), None);
    // Without a vocabulary width the last layer stays square.
    let h0 = header(2, 8, 0, 0);
    assert_eq!(layer_dims(&h0, 1), Some((8, 8)));
}

#[test]
fn total_bytes_sums_weights_and_biases() {
    // Two layers of 8x8 int8 weights plus 8 int32 biases each:
    // 2 * (64 + 32) = 192 bytes.
    let h = header(2, 8, 0, 0);
    let w = WeightsLayout::compute(&h).unwrap();
    assert_eq!(w.total_bytes, 192);
    // A vocabulary widens only the final layer: 64 + 32 + (8*100 + 400).
    let hv = header(2, 8, 100, 0);
    assert_eq!(WeightsLayout::compute(&hv).unwrap().total_bytes, 64 + 32 + 800 + 400);
    assert!(WeightsLayout::compute(&header(2, 8, 0, 1)).is_none());
}

#[test]
fn layer_pointers_tile_the_payload_contiguously() {
    let h = header(2, 8, 100, 0);
    let base = 0x1000u64;
    // Layer 0: weights at the payload start, biases right after them.
    assert_eq!(layer_ptr_int8(base, &h, 0), Some(base + 16));
    assert_eq!(bias_ptr_i32(base, &h, 0), Some(base + 16 + 64));
    // Layer 1 begins exactly where layer 0 ends.
    assert_eq!(layer_ptr_int8(base, &h, 1), Some(base + 16 + 64 + 32));
    assert_eq!(bias_ptr_i32(base, &h, 1), Some(base + 16 + 64 + 32 + 800));
    // Past the last layer there is nothing.
    assert_eq!(layer_ptr_int8(base, &h, 2), None);
    assert_eq!(bias_ptr_i32(base, &h, 2), None);
    // The final bias block ends at the computed total.
    let total = WeightsLayout::compute(&h).unwrap().total_bytes as u64;
    assert_eq!(bias_ptr_i32(base, &h, 1).unwrap() + 400, base + 16 + total);
}
