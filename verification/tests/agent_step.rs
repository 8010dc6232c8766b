use kernel_core::agent::infer_and_propose;
use kernel_core::model::ModelHeader;
use kernel_core::telemetry::{gather_telemetry, Telemetry};

fn header(n_layers: u16, hidden: u16, vocab: u32, dtype: u8) -> ModelHeader {
    ModelHeader { magic: *b"AIMD", n_layers, hidden, vocab, dtype, _res: [0; 3] }
}

fn quiet_telemetry() -> Telemetry {
    // Plenty of free memory, no faults: the agent tunes the quantum.
    Telemetry { irq_errors: 0, runq: 2, irq_rate: 4, free_kb: 64 * 1024, pf_rate: 0 }
}

#[test]
fn fallback_heuristic_scores_without_weights() {
    let h = header(1, 4, 0, 0);
    let tel = quiet_telemetry();
    // score = runq + irq_rate/2 - pf_rate - free_mb/8 = 2 + 2 - 0 - 8 = -4;
    // quantum = clamp(1000 - 80) = 920.
    let a = infer_and_propose(&h, &tel, &Vec::new());
    assert_eq!(a.kind, 1);
    assert_eq!(a.flags, 1);
    assert_eq!(a.param1, 920);
}

#[test]
fn low_memory_asks_for_a_cache_trim() {
    let h = header(1, 4, 0, 0);
    let mut tel = quiet_telemetry();
    tel.free_kb = 4096;
    let a = infer_and_propose(&h, &tel, &Vec::new());
    assert_eq!(a.kind, 4);
    assert_eq!(a.param1, 1024 * 1024);
    assert_eq!(a.flags, 1);

    // Page faults trigger the same trim.
    let mut tel2 = quiet_telemetry();
    tel2.pf_rate = 3;
    let a2 = infer_and_propose(&h, &tel2, &Vec::new());
    assert_eq!(a2.kind, 4);
}

#[test]
fn single_layer_inference_scores_the_first_neuron() {
    // One layer, hidden 4: weights 4x4 then 4 int32 biases.
    let h = header(1, 4, 0, 0);
    let mut model = vec![0u8; 16];
    // Row 0: weights [10, 0, 0, 0]; other rows zero.
    let mut weights = vec![0u8; 16];
    weights[0] = 10;
    model.extend_from_slice(&weights);
    // Bias 0 = 64; the rest zero.
    model.extend_from_slice(&64i32.to_le_bytes());
    model.extend_from_slice(&[0u8; 12]);

    let tel = quiet_telemetry();
    // Features: [2, 4, 64, 0]; lane 0 = relu(10*2 + 64) >> 6 = 84/64 = 1.
    // quantum = 1000 + 1*20 = 1020.
    let a = infer_and_propose(&h, &tel, &model);
    assert_eq!(a.kind, 1);
    assert_eq!(a.param1, 1020);
}

#[test]
fn negative_accumulation_relus_to_zero() {
    let h = header(1, 4, 0, 0);
    let mut model = vec![0u8; 16];
    let mut weights = vec![0u8; 16];
    weights[0] = 0x80u8; // -128 as int8
    model.extend_from_slice(&weights);
    model.extend_from_slice(&[0u8; 16]);
    let tel = quiet_telemetry();
    // Lane 0 = relu(-128*2) >> 6 = 0; quantum = 1000.
    let a = infer_and_propose(&h, &tel, &model);
    assert_eq!(a.param1, 1000);
}

#[test]
fn truncated_blob_falls_back_to_the_heuristic() {
    let h = header(1, 4, 0, 0);
    // Header only: not enough bytes for the layer payload.
    let model = vec![0u8; 20];
    let tel = quiet_telemetry();
    let a = infer_and_propose(&h, &tel, &model);
    assert_eq!(a.param1, 920);
}

#[test]
fn telemetry_deltas_saturate_and_update_prevs() {
    let mut prev_ticks = 100u64;
    let mut prev_pf = 5u64;
    let t = gather_telemetry(&mut prev_ticks, &mut prev_pf, 130, 5, 2048, 3);
    assert_eq!(t.irq_rate, 30);
    assert_eq!(t.pf_rate, 0);
    assert_eq!(t.free_kb, 2048);
    assert_eq!(t.runq, 3);
    assert_eq!(prev_ticks, 130);
    assert_eq!(prev_pf, 5);

    // A counter that went backwards reads as a zero delta.
    let mut pt = 50u64;
    let mut pp = 9u64;
    let t2 = gather_telemetry(&mut pt, &mut pp, 40, 2, 0, 0);
    assert_eq!(t2.irq_rate, 0);
    assert_eq!(t2.pf_rate, 0);
}

#[test]
fn quantum_clamps_at_the_bounds() {
    let h = header(1, 4, 0, 0);
    // A huge pile of free memory drives the heuristic to -127:
    // clamp(1000 - 2540) = 100.
    let tel_idle = Telemetry {
        irq_errors: 0,
        runq: 0,
        irq_rate: 0,
        free_kb: 2_000_000,
        pf_rate: 0,
    };
    let a = infer_and_propose(&h, &tel_idle, &Vec::new());
    assert_eq!(a.param1, 100);

    // A saturated run queue drives it to +127: clamp(1000 + 2540) = 3540,
    // inside the band, so it stays.
    let tel_busy = Telemetry {
        irq_errors: 0,
        runq: 4000,
        irq_rate: 0,
        free_kb: 9000,
        pf_rate: 0,
    };
    let a2 = infer_and_propose(&h, &tel_busy, &Vec::new());
    assert_eq!(a2.param1, 1000 + 127 * 20);
}
