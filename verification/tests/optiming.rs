//! Operator timing.
use minfer::bits::{Real, ONE, ONE_MILLIONTH};
use minfer::graph::ops::{AttnMode, Op, RopeStyle};
use minfer::optiming::{
    enabled, flag_from_env, global_sink, nanos_of, op_index, op_name, record, record_op, reset,
    snapshot, OpTimingEntry, Timing, TimingMode, TimingSink, OP_COUNT, OP_NAMES,
};
use std::time::Duration;

fn sample_ops() -> Vec<Op> {
    vec![
        Op::Input,
        Op::Add,
        Op::Mul,
        Op::Scale(Real::Single(ONE)),
        Op::Silu,
        Op::Softmax { dim: 1 },
        Op::RmsNorm { eps: Real::Single(ONE_MILLIONTH) },
        Op::QkNorm {
            hd: 128,
            nh: 8,
            eps: Real::Single(ONE_MILLIONTH),
        },
        Op::MatMul { transpose_b: false },
        Op::GetRows,
        Op::RoPE {
            style: RopeStyle::NonInterleaved,
        },
        Op::Attn {
            mode: AttnMode::Gqa,
            explicit_span: false,
        },
        Op::KvcacheStore { layer: 0 },
        Op::KvcacheLoad { layer: 0 },
        Op::View {
            offset: 0,
            shape: [1, 1, 1, 1],
        },
        Op::Reshape {
            shape: [1, 1, 1, 1],
        },
        Op::Permute { dims: [0, 1, 2, 3] },
        Op::SwiGLU,
        Op::BatchMatMul,
        Op::FusedQKV { layer: 0 },
        Op::QkvBiasRopeStore { layer: 0 },
        Op::FusedFFN,
        Op::FusedQkvNorm { layer: 0 },
    ]
}

fn sink() -> TimingSink {
    TimingSink::new()
}

#[test]
fn op_names_agree_with_op_index() {
    let ops = sample_ops();
    assert_eq!(ops.len(), OP_NAMES.len(), "every variant is covered once");
    let mut seen = std::collections::HashSet::new();
    for op in &ops {
        let i = op_index(op);
        assert!(i < OP_COUNT, "{op:?} maps out of range");
        assert!(seen.insert(i), "two variants map to index {i}");
        let name = OP_NAMES[i];
        assert!(!name.is_empty());
        assert!(
            name.chars().all(|c| c.is_ascii_lowercase() || c == '_'),
            "metric label value {name:?} must be lowercase snake case"
        );
    }
    assert_eq!(seen.len(), OP_COUNT, "the table has an unused entry");
}

#[test]
fn op_timing_flag_is_presence_checked_and_off_when_unset() {
    assert!(!flag_from_env(None));
    assert!(flag_from_env(Some("1")));
    assert!(flag_from_env(Some("0")));
    assert!(flag_from_env(Some("")));
}

#[test]
fn off_mode_never_records() {
    let global = sink();
    assert!(TimingMode::Off.resolve_for(true, &global).is_none());
    assert!(TimingMode::Off.resolve_for(false, &global).is_none());
}

#[test]
fn global_mode_follows_the_flag() {
    let global = sink();
    assert!(TimingMode::Global.resolve_for(false, &global).is_none());
    assert!(std::ptr::eq(
        TimingMode::Global.resolve_for(true, &global).unwrap(),
        &global
    ));
}

#[test]
fn private_mode_uses_its_own_sink_and_flag() {
    let global = sink();
    let off = TimingMode::Private {
        sink: sink(),
        enabled: false,
    };
    let on = TimingMode::Private {
        sink: sink(),
        enabled: true,
    };
    assert!(off.resolve_for(true, &global).is_none());
    let mine = match &on {
        TimingMode::Private { sink, .. } => sink,
        _ => unreachable!(),
    };
    assert!(std::ptr::eq(
        on.resolve_for(false, &global).unwrap(),
        mine
    ));
}

#[test]
fn record_accumulates_per_op_without_cross_talk() {
    let mut s = sink();
    let matmul = Op::MatMul { transpose_b: false };
    let attn = Op::Attn {
        mode: AttnMode::Gqa,
        explicit_span: false,
    };
    s.record(op_index(&matmul), Duration::from_nanos(100).as_nanos());
    s.record(op_index(&matmul), Duration::from_nanos(250).as_nanos());
    s.record(op_index(&attn), Duration::from_nanos(7).as_nanos());

    assert_eq!(
        s.snapshot(),
        vec![
            OpTimingEntry {
                name: "matmul",
                calls: 2,
                nanos: 350,
            },
            OpTimingEntry {
                name: "attn",
                calls: 1,
                nanos: 7,
            },
        ],
        "table order, only the ops that ran"
    );
}

#[test]
fn nanos_of_saturates_instead_of_wrapping() {
    assert_eq!(nanos_of(Duration::ZERO.as_nanos()), 0);
    assert_eq!(nanos_of(Duration::from_nanos(u64::MAX).as_nanos()), u64::MAX);
    assert_eq!(nanos_of(Duration::from_secs(u64::MAX / 2).as_nanos()), u64::MAX);
}

#[test]
fn record_saturates_instead_of_wrapping() {
    let mut s = sink();
    s.record(op_index(&Op::Add), Duration::from_secs(u64::MAX / 2).as_nanos());
    let snap = s.snapshot();
    assert_eq!(snap.len(), 1);
    assert_eq!(snap[0].name, "add");
    assert_eq!(snap[0].calls, 1);
    assert_eq!(snap[0].nanos, u64::MAX);
}

#[test]
fn snapshot_omits_ops_that_never_ran() {
    let mut s = sink();
    s.record(op_index(&Op::Silu), Duration::from_nanos(5).as_nanos());
    assert_eq!(s.snapshot().len(), 1);
    assert!(!s.snapshot().iter().any(|e| e.name == "batch_matmul"));
}

#[test]
fn a_total_stays_at_its_largest_value() {
    let mut s = sink();
    s.record(1, u128::MAX);
    s.record(1, 17);
    assert_eq!(s.snapshot()[0].nanos, u64::MAX);
    assert_eq!(s.snapshot()[0].calls, 2);
}

#[test]
fn the_flag_is_looked_up_once() {
    let mut t = Timing::new();
    assert!(!enabled(&mut t, None));
    assert!(!enabled(&mut t, Some("1")));
    let mut u = Timing::new();
    assert!(enabled(&mut u, Some("1")));
    assert!(enabled(&mut u, None));
}

#[test]
fn the_shared_table_is_filled_and_emptied() {
    let mut t = Timing::new();
    record(&mut t, op_index(&Op::Mul), 9);
    assert_eq!(snapshot(&t), vec![OpTimingEntry { name: "mul", calls: 1, nanos: 9 }]);
    assert_eq!(global_sink(&t).snapshot().len(), 1);
    reset(&mut t);
    assert!(snapshot(&t).is_empty());
    assert_eq!(op_name(22), "fused_qkv_norm");
    assert!(matches!(TimingMode::default(), TimingMode::Global));
    assert!(TimingSink::default().snapshot().is_empty());
    let mut s = sink();
    s.record(0, 1);
    s.reset();
    assert!(s.snapshot().is_empty());
}

#[test]
fn a_private_table_is_out_of_reach() {
    let mut t = Timing::new();
    t.flag = Some(true);
    let mut mine = TimingMode::Private { sink: sink(), enabled: true };
    record_op(&mut mine, &mut t, None, &Op::Add, 5);
    record_op(&mut TimingMode::Global, &mut t, None, &Op::Mul, 6);
    record_op(&mut TimingMode::Off, &mut t, None, &Op::Silu, 7);
    assert_eq!(snapshot(&t), vec![OpTimingEntry { name: "mul", calls: 1, nanos: 6 }]);
    match &mine {
        TimingMode::Private { sink, .. } => assert_eq!(
            sink.snapshot(),
            vec![OpTimingEntry { name: "add", calls: 1, nanos: 5 }]
        ),
        _ => unreachable!(),
    }
}
