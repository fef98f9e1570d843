//! Quantisation: names, bytes and round trips. Rounding is done here, as a caller
//! does it.
use minfer::block::Element;
use minfer::gguf::GgmlType;
use minfer::quantize::{
    can_decode, decode_to_f32, dequantize_block, quantize_row, refusal, Decoded, QuantBlock,
    QuantTarget, Row, SUPPORTED_TARGETS,
};

fn half_bits(v: f32) -> u16 {
    half::f16::from_f32(v).to_bits()
}

fn single(bits: u16) -> f32 {
    half::f16::from_bits(bits).to_f32()
}

/// The number that an element stands for.
fn value(e: &Element) -> f32 {
    match *e {
        Element::Scaled { code, d } => single(d) * code as f32,
        Element::Shifted { code, d, m } => single(d) * code as f32 + single(m),
        Element::Affine { code, d, scale, m, min } => {
            (single(d) * scale as f32) * code as f32 - single(m) * min as f32
        }
        Element::Graded { code, d, grade } => single(d) * grade as f32 * code as f32,
    }
}

fn values(es: &[Element]) -> Vec<f32> {
    es.iter().map(value).collect()
}

fn inverse(d: f32) -> f32 {
    if d != 0.0 {
        1.0 / d
    } else {
        0.0
    }
}

/// The value of largest magnitude, the first of several.
fn extreme(blk: &[f32]) -> f32 {
    let (mut amax, mut max) = (0.0f32, 0.0f32);
    for &v in blk {
        if amax < v.abs() {
            amax = v.abs();
            max = v;
        }
    }
    max
}

fn range(blk: &[f32]) -> (f32, f32) {
    let (mut min, mut max) = (f32::MAX, f32::MIN);
    for &v in blk {
        if v < min {
            min = v;
        }
        if v > max {
            max = v;
        }
    }
    (min, max)
}

fn round_block(target: QuantTarget, blk: &[f32]) -> QuantBlock {
    match target {
        QuantTarget::Q8_0 => {
            let amax = blk.iter().fold(0.0f32, |a, v| a.max(v.abs()));
            let d = amax / 127.0;
            let id = inverse(d);
            let codes = blk.iter().map(|v| (v * id).round() as i8).collect();
            QuantBlock { d: half_bits(d), m: 0, codes }
        }
        QuantTarget::Q4_0 => {
            let d = extreme(blk) / -8.0;
            let id = inverse(d);
            let codes = blk.iter().map(|v| v.mul_add(id, 8.5) as i8).collect();
            QuantBlock { d: half_bits(d), m: 0, codes }
        }
        QuantTarget::Q5_0 => {
            let d = extreme(blk) / -16.0;
            let id = inverse(d);
            let codes = blk.iter().map(|v| v.mul_add(id, 16.5) as i8).collect();
            QuantBlock { d: half_bits(d), m: 0, codes }
        }
        _ => {
            let (min, max) = range(blk);
            let steps = if target == QuantTarget::Q4_1 { 15.0 } else { 31.0 };
            let d = (max - min) / steps;
            let id = inverse(d);
            let codes = blk.iter().map(|v| (v - min).mul_add(id, 0.5) as i8).collect();
            QuantBlock { d: half_bits(d), m: half_bits(min), codes }
        }
    }
}

fn quantize(target: QuantTarget, x: &[f32]) -> Vec<u8> {
    let row = match target {
        QuantTarget::F32 => Row::Singles(x.iter().map(|v| v.to_bits()).collect()),
        QuantTarget::F16 => Row::Halves(x.iter().map(|v| half_bits(*v)).collect()),
        _ => Row::Blocks(x.chunks_exact(32).map(|b| round_block(target, b)).collect()),
    };
    quantize_row(target, &row)
}

fn decoded(d: Decoded) -> Vec<f32> {
    match d {
        Decoded::Singles(v) => v.iter().map(|b| f32::from_bits(*b)).collect(),
        Decoded::Halves(v) => v.iter().map(|b| single(*b)).collect(),
        Decoded::Elements(v) => values(&v),
    }
}

fn ramp() -> Vec<f32> {
    (0..32).map(|i| (i as f32 - 16.0) / 8.0).collect()
}

#[test]
fn targets_parse_and_refuse_by_name() {
    assert_eq!(QuantTarget::parse("Q4_0").unwrap(), QuantTarget::Q4_0);
    assert_eq!(QuantTarget::parse("f16").unwrap(), QuantTarget::F16);
    for t in ["q4_K", "q6_K", "iq2_xxs", "tq1_0", "bf16", "q8_1"] {
        let e = QuantTarget::parse(t).unwrap_err();
        assert!(e.contains("no weight encoder"), "{t}: {e}");
        assert!(e.contains(SUPPORTED_TARGETS), "{t}: {e}");
    }
    let e = QuantTarget::parse("banana").unwrap_err();
    assert!(e.contains("unknown quant target"), "{e}");
    assert!(e.contains(SUPPORTED_TARGETS), "{e}");
}

#[test]
fn written_block_bytes_match_type_size_and_blck_size() {
    let x = vec![0.5f32; 64];
    for t in [
        QuantTarget::Q4_0,
        QuantTarget::Q4_1,
        QuantTarget::Q5_0,
        QuantTarget::Q5_1,
        QuantTarget::Q8_0,
    ] {
        let y = quantize(t, &x);
        let gt = t.ggml_type();
        assert_eq!(
            y.len(),
            (x.len() / gt.blck_size()) * gt.type_size(),
            "{}",
            t.name()
        );
    }
    assert_eq!(quantize(QuantTarget::F16, &x).len(), x.len() * 2);
    assert_eq!(quantize(QuantTarget::F32, &x).len(), x.len() * 4);
}

#[test]
fn q8_0_encoder_matches_the_reference_numbers() {
    let x = ramp();
    let y = quantize(QuantTarget::Q8_0, &x);
    assert_eq!(y.len(), 34);
    let d = half::f16::from_bits(u16::from_le_bytes([y[0], y[1]])).to_f32();
    assert!((d - 2.0 / 127.0).abs() < 1e-6, "{d}");
    assert_eq!(y[2] as i8, -127);
    assert_eq!(y[2 + 31] as i8, (1.875 / d).round() as i8);
    let back = values(&dequantize_block(GgmlType::Q8_0, &y));
    for (a, b) in x.iter().zip(back.iter()) {
        assert!((a - b).abs() <= d / 2.0 + 1e-6, "{a} vs {b}");
    }
}

#[test]
fn q4_0_encoder_matches_the_reference_layout() {
    let x = ramp();
    let y = quantize(QuantTarget::Q4_0, &x);
    assert_eq!(y.len(), 18);
    let d = half::f16::from_bits(u16::from_le_bytes([y[0], y[1]])).to_f32();
    assert_eq!(d, 0.25);
    assert_eq!(y[2] & 0x0F, 0);
    assert_eq!(y[2] >> 4, 8);
    let back = values(&dequantize_block(GgmlType::Q4_0, &y));
    assert_eq!(back.len(), 32);
    for (a, b) in x.iter().zip(back.iter()) {
        assert!((a - b).abs() <= d + 1e-6, "{a} vs {b}");
    }
}

#[test]
fn q4_1_q5_0_q5_1_round_trip_within_their_steps() {
    let x = ramp();
    for (t, step) in [
        (QuantTarget::Q4_1, 1.0 / 15.0),
        (QuantTarget::Q5_0, 1.0 / 16.0),
        (QuantTarget::Q5_1, 1.0 / 31.0),
    ] {
        let y = quantize(t, &x);
        let back = values(&dequantize_block(t.ggml_type(), &y));
        assert_eq!(back.len(), 32);
        let range = 4.0;
        for (a, b) in x.iter().zip(back.iter()) {
            assert!(
                (a - b).abs() <= range * step + 1e-6,
                "{}: {a} vs {b}",
                t.name()
            );
        }
    }
}

#[test]
fn a_zero_block_has_zero_scale_and_no_nans() {
    let x = vec![0.0f32; 32];
    for t in [
        QuantTarget::Q4_0,
        QuantTarget::Q4_1,
        QuantTarget::Q5_0,
        QuantTarget::Q5_1,
        QuantTarget::Q8_0,
    ] {
        let y = quantize(t, &x);
        for f in values(&dequantize_block(t.ggml_type(), &y)) {
            assert!(f.is_finite(), "{}", t.name());
        }
    }
}

#[test]
fn decode_refuses_k_quants_and_decodes_the_supported_set() {
    assert!(decode_to_f32(GgmlType::Q4_K, &[0u8; 144], 256).is_none());
    assert!(decode_to_f32(GgmlType::Q6_K, &[0u8; 210], 256).is_none());
    let x = ramp();
    for t in [
        QuantTarget::F16,
        QuantTarget::F32,
        QuantTarget::Q4_0,
        QuantTarget::Q8_0,
    ] {
        let y = quantize(t, &x);
        let back = decoded(decode_to_f32(t.ggml_type(), &y, 32).unwrap());
        assert_eq!(back.len(), 32, "{}", t.name());
        if t == QuantTarget::F16 || t == QuantTarget::F32 {
            assert_eq!(back, x, "{} must round-trip exactly", t.name());
        }
    }
}

#[test]
fn f16_overflow_saturates_to_infinity_not_a_wrong_finite_value() {
    let y = quantize(QuantTarget::F16, &[70000.0f32]);
    let back = half::f16::from_bits(u16::from_le_bytes([y[0], y[1]])).to_f32();
    assert!(back.is_infinite(), "{back}");
}

#[test]
fn a_refused_name_is_quoted() {
    let e = QuantTarget::parse("Q4\"K").unwrap_err();
    assert_eq!(
        e,
        "minfer quantize: unknown quant target \"q4\\\"k\"; supported: q4_0, q4_1, q5_0, q5_1, q8_0, f16, f32"
    );
    assert_eq!(
        refusal(true, "\"q4_k\""),
        "minfer quantize: target \"q4_k\" is a known GGUF type but minfer has no weight encoder for it (minfer can only read it, so writing it would emit wrong weights); supported encoder targets: q4_0, q4_1, q5_0, q5_1, q8_0, f16, f32"
    );
}

#[test]
fn every_target_reads_its_own_name() {
    for t in [
        QuantTarget::F32,
        QuantTarget::F16,
        QuantTarget::Q8_0,
        QuantTarget::Q4_0,
        QuantTarget::Q4_1,
        QuantTarget::Q5_0,
        QuantTarget::Q5_1,
    ] {
        assert_eq!(QuantTarget::parse(t.name()), Ok(t));
        assert!(can_decode(t.ggml_type()));
        assert_eq!(t.blck_size(), t.ggml_type().blck_size());
    }
    assert_eq!(QuantTarget::parse("FP32"), Ok(QuantTarget::F32));
    assert_eq!(QuantTarget::parse("fp16"), Ok(QuantTarget::F16));
    assert_eq!(QuantTarget::Q5_1.file_type(), 9);
    assert_eq!(QuantTarget::Q8_0.file_type(), 7);
    assert!(can_decode(GgmlType::BF16));
    assert!(!can_decode(GgmlType::Q5_K));
}

#[test]
fn brain_floats_are_the_upper_halves_of_singles() {
    let bits = 1.5f32.to_bits();
    let data = [(bits >> 16) as u8, (bits >> 24) as u8, 7];
    match decode_to_f32(GgmlType::BF16, &data, 1) {
        Some(Decoded::Singles(v)) => assert_eq!(v, vec![bits]),
        _ => panic!("a brain float was not decoded"),
    }
}

#[test]
fn a_packed_block_gives_its_codes_back() {
    let codes: Vec<i8> = (0..32).collect();
    let row = Row::Blocks(vec![QuantBlock { d: 0x3c00, m: 0x4000, codes: codes.clone() }]);
    let y = quantize_row(QuantTarget::Q5_1, &row);
    let back = dequantize_block(GgmlType::Q5_1, &y);
    for (j, e) in back.iter().enumerate() {
        assert_eq!(*e, Element::Shifted { code: codes[j] as i32, d: 0x3c00, m: 0x4000 });
    }
    let y = quantize_row(QuantTarget::Q4_0, &row);
    let back = dequantize_block(GgmlType::Q4_0, &y);
    for (j, e) in back.iter().enumerate() {
        let kept = codes[j].min(15) as i32;
        assert_eq!(*e, Element::Scaled { code: kept - 8, d: 0x3c00 });
    }
}

#[test]
fn an_undecodable_type_has_no_elements() {
    assert!(dequantize_block(GgmlType::Q4_K, &[0u8; 144]).is_empty());
}

#[test]
fn joined_rows_join_their_bytes() {
    let block = |seed: i8| QuantBlock {
        d: 0x3C00 + seed as u16,
        m: 7,
        codes: (0..32).map(|i| (i + seed) % 16).collect(),
    };
    for t in [QuantTarget::Q4_1, QuantTarget::Q5_1, QuantTarget::Q8_0] {
        let bytes = |seeds: &[i8]| {
            quantize_row(t, &Row::Blocks(seeds.iter().map(|s| block(*s)).collect()))
        };
        assert_eq!(bytes(&[1, 2, 3]), [bytes(&[1]), bytes(&[2, 3])].concat());
    }
    let halves = |v: &[u16]| quantize_row(QuantTarget::F16, &Row::Halves(v.to_vec()));
    assert_eq!(halves(&[1, 2, 3]), [halves(&[1, 2]), halves(&[3])].concat());
}
