//! Model files: keys, tensors, loaded models.
use minfer::bits::Real;
use minfer::gguf::{GgmlType, GgufContext, GgufKv, GgufModel, GgufPart, GgufTensorInfo, GgufType};
use minfer::graph::ops::{InvSqrt, RopeStyle};
use minfer::loader::{
    find_tensor, load_gguf_tensor, load_model, load_named, load_tensor, Geometry,
};
use minfer::graph::offload::OffloadRequest;
use minfer::models::def::ModelDef;
use minfer::models::load::{load_model as first_model, load_model_ns, load_model_with, LoadRequest};
use minfer::models::meta::{block_weight_bytes, chat_template, find_token_id};
use minfer::models::register::Targets;
use minfer::models::{
    architecture, load_model_configured, Architecture, Device, LoadedModel, OffloadState,
};
use minfer::tensor::TensorType;
use minfer::text::{block_tensor, decimal_string, from_chars, same, to_chars, to_lower};

fn text(key: &str, value: &str) -> GgufKv {
    GgufKv {
        key: key.to_string(),
        is_array: false,
        type_: GgufType::String,
        data: Vec::new(),
        data_string: vec![value.to_string()],
    }
}

fn bytes(key: &str, type_: GgufType, data: &[u8]) -> GgufKv {
    GgufKv {
        key: key.to_string(),
        is_array: false,
        type_,
        data: data.to_vec(),
        data_string: Vec::new(),
    }
}

fn number(key: &str, n: u32) -> GgufKv {
    bytes(key, GgufType::Uint32, &n.to_le_bytes())
}

fn tokens(list: &[&str]) -> GgufKv {
    GgufKv {
        key: "tokenizer.ggml.tokens".to_string(),
        is_array: true,
        type_: GgufType::String,
        data: Vec::new(),
        data_string: list.iter().map(|s| s.to_string()).collect(),
    }
}

fn info(name: &str, type_: GgmlType, ne: [i64; 4], offset: u64) -> GgufTensorInfo {
    GgufTensorInfo { name: name.to_string(), type_, ne, offset }
}

#[test]
fn numbers_are_little_endian() {
    let k = bytes("k", GgufType::Uint32, &[1, 2, 0, 0, 9, 0, 0, 0]);
    assert_eq!((k.get_ne(), k.get_i64(), k.get_u32()), (2, Some(513), Some(513)));
    let k = bytes("k", GgufType::Int32, &(-2i32).to_le_bytes());
    assert_eq!((k.get_i64(), k.get_u32()), (Some(-2), Some(u32::MAX - 1)));
    let k = bytes("k", GgufType::Uint64, &u64::MAX.to_le_bytes());
    assert_eq!((k.get_i64(), k.get_u32()), (Some(-1), Some(u32::MAX)));
    let k = bytes("k", GgufType::Float32, &1.5f32.to_le_bytes());
    assert_eq!((k.get_f32(), k.get_i64()), (Some(Real::Single(1.5f32.to_bits())), None));
    let k = bytes("k", GgufType::Float64, &1.5f64.to_le_bytes());
    assert_eq!(k.get_f32(), Some(Real::Double(1.5f64.to_bits())));
    assert_eq!(text("k", "v").get_string().as_deref(), Some("v"));
    assert_eq!(text("k", "7").get_i64(), None);
    assert_eq!(number("k", 7).get_string(), None);
}

#[test]
fn the_first_key_of_a_name_counts() {
    let ctx =
        GgufContext { kv: vec![number("a", 1), number("a", 2)], info: Vec::new(), offset: 0 };
    assert_eq!(ctx.find_key("a"), Some(0));
    assert_eq!(ctx.get_key_val_i64("a"), Some(1));
    assert_eq!(ctx.get_key_val_i64("b"), None);
    assert_eq!(ctx.get_key_val_str("a"), None);
}

#[test]
fn a_tensor_is_cut_out_of_its_file() {
    let raw: Vec<u8> = (0..100).collect();
    let t = load_gguf_tensor(10, &raw, &info("t", GgmlType::Q4_0, [64, 2, 1, 1], 5), "name");
    assert_eq!(t.ttype, TensorType::Q4_0);
    assert_eq!(t.name, "name");
    assert_eq!(t.strides, [18, 36, 72, 72]);
    assert_eq!(t.data, raw[15..87]);
}

#[test]
fn a_later_index_entry_wins() {
    let part = |names: &[(&str, u64)]| GgufPart {
        ctx: GgufContext {
            kv: Vec::new(),
            info: names.iter().map(|(n, o)| info(n, GgmlType::F32, [1, 1, 1, 1], *o)).collect(),
            offset: 0,
        },
        data: (0..16).collect(),
    };
    let parts = vec![part(&[("a", 0), ("b", 4), ("b", 8)]), part(&[("c", 0)])];
    assert_eq!(find_tensor(&parts, "b"), Some((0, 2)));
    assert_eq!(find_tensor(&parts, "c"), Some((1, 0)));
    assert_eq!(find_tensor(&parts, "d"), None);
    let t = load_named(&parts, "b", "draft.b", Geometry::Held).unwrap();
    assert_eq!((t.name.as_str(), t.data), ("draft.b", vec![8, 9, 10, 11]));
    assert!(load_named(&parts, "d", "d", Geometry::Stored).is_none());
}

fn file(arch: &str, extra: Vec<GgufKv>, names: &[(&str, [i64; 4])]) -> GgufModel {
    let mut kv = vec![
        text("general.architecture", arch),
        number(&format!("{arch}.embedding_length"), 8),
        number(&format!("{arch}.attention.head_count"), 2),
        number(&format!("{arch}.block_count"), 1),
        number(&format!("{arch}.feed_forward_length"), 16),
        tokens(&["a", "<|im_end|>", "b"]),
    ];
    kv.extend(extra);
    let mut offset = 0;
    let mut entries = Vec::new();
    for (n, ne) in names {
        entries.push(info(n, GgmlType::F32, *ne, offset));
        offset += 4 * ne.iter().product::<i64>() as u64;
    }
    GgufModel {
        parts: vec![GgufPart {
            ctx: GgufContext { kv, info: entries, offset: 0 },
            data: vec![0; offset as usize],
        }],
    }
}

const NAMES: [(&str, [i64; 4]); 3] = [
    ("token_embd.weight", [8, 3, 1, 1]),
    ("blk.0.attn_k.weight", [8, 4, 1, 1]),
    ("blk.0.attn_q.weight", [8, 8, 1, 1]),
];

#[test]
fn a_qwen2_file_is_loaded() {
    let f = file("qwen2", Vec::new(), &NAMES);
    assert_eq!(architecture(&f.parts[0].ctx), Some(Architecture::Qwen2));
    let m = match load_model_configured(&f, "draft.", OffloadState::cpu_only(1)) {
        Some(LoadedModel::Qwen2(m)) => m,
        _ => panic!("a Qwen2 model"),
    };
    let h = &m.hparams;
    assert_eq!((h.n_embd, h.n_head, h.n_head_kv, h.n_ff, h.n_vocab), (8, 2, 2, 16, 3));
    assert_eq!((h.max_seq_len, h.n_kv_embd, h.n_embd_head()), (32768, 4, 4));
    assert_eq!(h.f_norm_rms_eps, Real::Single(1e-6f32.to_bits()));
    assert_eq!(h.rope_freq_base, Real::Single(10000f32.to_bits()));
    assert_eq!(h.rope_freq_scale, Real::Single(1f32.to_bits()));
    assert_eq!(h.attention_scale(), InvSqrt { head_dim: 4 });
    assert_eq!((h.eos_token_id, h.im_end_token_id), (0, Some(1)));
    assert_eq!(m.rope_style(), RopeStyle::NonInterleaved);
    assert!(m.tied);
    assert_eq!(m.n_layer(), 1);
    assert_eq!(m.tok_embd.as_ref().unwrap().name, "draft.token_embd.weight");
    assert_eq!(m.layers[0].wq.as_ref().unwrap().name, "draft.blk.0.attn_q.weight");
    assert!(m.layers[0].wv.is_none());
    assert_eq!(m.special_tokens().im_end, Some(1));
    let turns = vec![("user".to_string(), "hi".to_string())];
    assert_eq!(
        m.format_chat(&turns),
        "<|im_start|>user\nhi<|im_end|>\n<|im_start|>assistant\n"
    );
}

#[test]
fn a_qwen3_file_names_its_head_size() {
    let f = file(
        "qwen3",
        vec![
            number("qwen3.attention.key_length", 16),
            number("qwen3.attention.head_count_kv", 1),
            number("qwen3.context_length", 64),
            number("tokenizer.ggml.eos_token_id", 2),
        ],
        &[("token_embd.weight", [8, 3, 1, 1]), ("blk.0.attn_k.weight", [8, 16, 1, 1])],
    );
    let m = match load_model_configured(&f, "", OffloadState::cpu_only(1)) {
        Some(LoadedModel::Qwen3(m)) => m,
        _ => panic!("a Qwen3 model"),
    };
    assert_eq!((m.hparams.n_embd_head(), m.hparams.max_seq_len), (16, 64));
    assert_eq!(m.hparams.attention_scale(), InvSqrt { head_dim: 16 });
    assert_eq!(m.special_tokens().eos, 2);
    assert_eq!(m.n_vocab(), 3);
}

fn ask(request: OffloadRequest, budget: Option<usize>) -> LoadRequest<'static> {
    LoadRequest {
        request,
        gpu_layers: Some("7"),
        device: true,
        budget,
        targets: Targets { metal: true, cuda: false, dsc_gates: false },
        source: "asked".to_string(),
    }
}

#[test]
fn a_load_plans_before_it_charges() {
    let f = file("qwen2", Vec::new(), &NAMES);
    let plan = |m: Option<LoadedModel>| match m {
        Some(LoadedModel::Qwen2(m)) => {
            Some((m.offload.plan.gpu_layers, m.offload.device_bytes, m.offload.source))
        }
        _ => None,
    };
    let charged = 4 * (24 + 32 + 64);
    let r = load_model_with(&f, "", ask(OffloadRequest::Layers(0), None));
    assert_eq!(plan(r), Some((0, 0, "asked".to_string())));
    let r = load_model_ns(&f, "draft.", ask(OffloadRequest::Layers(0), None));
    assert_eq!(plan(r).map(|p| (p.0, p.1)), Some((1, charged)));
    let r = first_model(&f, ask(OffloadRequest::Layers(0), None));
    assert_eq!(plan(r).map(|p| (p.0, p.1)), Some((1, charged)));
    let r = load_model_with(&f, "", ask(OffloadRequest::Auto, Some(510)));
    assert_eq!(plan(r).map(|p| p.0), Some(0));
    let r = load_model_with(&f, "", ask(OffloadRequest::Auto, Some(511)));
    assert_eq!(plan(r).map(|p| p.0), Some(1));
    assert!(load_model_with(&f, "", ask(OffloadRequest::Auto, None)).is_none());
    let mut q = ask(OffloadRequest::Default, None);
    q.gpu_layers = Some("many");
    assert!(load_model_with(&f, "", q).is_none());
}

#[test]
fn an_unusable_plan_is_given_up() {
    let f = file("qwen2", Vec::new(), &NAMES);
    let m = load_model_ns(&f, "", ask(OffloadRequest::Default, None)).unwrap();
    assert_eq!(m.device(None, None), Device::Cpu);
    match m.settle(None, None) {
        LoadedModel::Qwen2(m) => {
            assert_eq!((m.offload.plan.gpu_layers, m.offload.plan.n_layers), (0, 1));
            assert_eq!((m.offload.device_bytes, m.offload.source.as_str()), (0, "default"));
            assert_eq!(m.hparams.n_embd, 8);
        }
        _ => panic!("a Qwen2 model"),
    }
}

#[test]
fn models_answer_for_themselves() {
    let f = file("qwen2", Vec::new(), &NAMES);
    let m = load_model_configured(&f, "", OffloadState::cpu_only(1)).unwrap();
    assert_eq!((m.n_layer(), m.n_head_kv(), m.n_embd_head()), (1, 2, 4));
    assert_eq!((m.n_kv_embd(), m.n_vocab()), (4, 3));
    assert_eq!(m.rope_style(), RopeStyle::NonInterleaved);
    assert_eq!(m.rope_params().0, Real::Single(10000f32.to_bits()));
    assert_eq!((m.special_tokens().eos, m.special_tokens().im_end), (0, Some(1)));
    assert_eq!(m.format_chat(&Vec::new()), "<|im_start|>assistant\n");
    assert_eq!((m.offload().gpu_layers, m.offload().n_layers), (0, 1));
    assert_eq!(m.offload_report(Device::Cpu), None);
    let m = load_model_ns(&f, "", ask(OffloadRequest::Default, None)).unwrap();
    assert!(m.offload_report(Device::Metal).is_some());
}

#[test]
fn the_chat_template_is_a_key() {
    let mut f = file("qwen2", Vec::new(), &NAMES);
    assert_eq!(chat_template(&f.parts[0].ctx), None);
    f.parts[0].ctx.kv.push(text("tokenizer.chat_template", "{{x}}"));
    assert_eq!(chat_template(&f.parts[0].ctx).as_deref(), Some("{{x}}"));
}

#[test]
fn a_file_that_lacks_something_is_not_loaded() {
    let load = |f: &GgufModel| load_model_configured(f, "", OffloadState::cpu_only(1)).is_some();
    assert!(!load(&file("mamba", Vec::new(), &NAMES)));
    assert!(!load(&file("qwen2", Vec::new(), &NAMES[1..])));
    let mut f = file("qwen2", Vec::new(), &NAMES);
    f.parts[0].ctx.kv.remove(4);
    assert!(!load(&f));
    f.parts[0].ctx.kv.push(number("llama.feed_forward_length", 9));
    assert!(load(&f));
}

#[test]
fn a_bare_model_is_loaded_by_its_names() {
    let f = file("qwen2", vec![number("qwen2.attention.head_count_kv", 2)], &NAMES);
    let m = load_model(&f.parts).unwrap();
    assert_eq!((m.n_layer(), m.hparams.n_embd_head()), (1, 4));
    assert_eq!(m.output.as_ref().unwrap().name, "token_embd.weight");
    assert_eq!(m.layer(0).wk.as_ref().unwrap().shape, [8, 4, 1, 1]);
    assert!(load_model(&file("qwen2", Vec::new(), &NAMES).parts).is_none());
}

#[test]
fn tokens_and_blocks_are_found_in_the_index() {
    let f = file("qwen2", Vec::new(), &NAMES);
    assert_eq!(find_token_id(&f.parts[0].ctx, "b"), Some(2));
    assert_eq!(find_token_id(&f.parts[0].ctx, "c"), None);
    assert_eq!(block_weight_bytes(&f, 2), vec![4 * (32 + 64), 0]);
}

#[test]
fn texts_are_built_from_characters() {
    assert_eq!(decimal_string(0), "0");
    assert_eq!(decimal_string(90210), "90210");
    assert_eq!(to_lower("Q4_K Ä"), "q4_k Ä");
    assert_eq!(from_chars(&to_chars("aé")), "aé");
    assert_eq!(block_tensor(12, "attn_q.weight"), "blk.12.attn_q.weight");
    assert!(same("x", "x") && !same("x", "xy"));
}

#[test]
fn a_value_of_another_type_is_no_number() {
    for type_ in [GgufType::Bool, GgufType::Int8, GgufType::Float32, GgufType::Uint16] {
        let k = bytes("k", type_, &[]);
        assert_eq!((k.get_i64(), k.get_u32()), (None, None), "{type_:?}");
    }
    let k = bytes("k", GgufType::Bool, &[1]);
    assert_eq!((k.get_i64(), k.get_f32()), (None, None));
    assert_eq!(bytes("k", GgufType::Uint32, &[]).get_f32(), None);
}

#[test]
fn a_key_that_is_not_looked_at_may_hold_anything() {
    let broken = vec![
        bytes("llama.block_count", GgufType::Uint32, &[]),
        bytes("llama.context_length", GgufType::Bool, &[]),
        bytes("general.alignment", GgufType::Uint64, &[]),
    ];
    let f = file("qwen2", broken, &NAMES);
    let m = load_model_configured(&f, "", OffloadState::cpu_only(1)).unwrap();
    assert_eq!((m.n_layer(), m.n_vocab()), (1, 3));
}

#[test]
fn an_empty_token_list_names_no_token() {
    let mut list = tokens(&[]);
    list.type_ = GgufType::Uint32;
    let ctx = GgufContext { kv: vec![list], info: Vec::new(), offset: 0 };
    assert_eq!(find_token_id(&ctx, "a"), None);
    let ctx = GgufContext { kv: vec![tokens(&[])], info: Vec::new(), offset: 0 };
    assert_eq!(find_token_id(&ctx, "a"), None);
}

#[test]
fn five_bit_weights_go_to_metal_with_qwen3_only() {
    let five = |arch: &str, t: GgmlType, row: usize| {
        let extra = vec![number(&format!("{arch}.attention.key_length"), 4)];
        let mut f = file(arch, extra, &NAMES);
        f.parts[0].ctx.info[2].type_ = t;
        f.parts[0].ctx.info[2].ne = [32, 8, 1, 1];
        f.parts[0].data.resize(1 << 12, 0);
        let held = match load_model_with(&f, "", ask(OffloadRequest::Default, None)) {
            Some(LoadedModel::Qwen2(m)) => m.offload.device_bytes,
            Some(LoadedModel::Qwen3(m)) => m.offload.device_bytes,
            None => panic!("a model"),
        };
        (held - 4 * (24 + 32), 8 * row)
    };
    assert_eq!(five("qwen2", GgmlType::Q5_0, 22).0, 0);
    assert_eq!(five("qwen2", GgmlType::Q5_1, 24).0, 0);
    let (held, whole) = five("qwen3", GgmlType::Q5_0, 22);
    assert_eq!(held, whole);
    let (held, whole) = five("qwen3", GgmlType::Q5_1, 24);
    assert_eq!(held, whole);
    let (held, whole) = five("qwen2", GgmlType::Q8_0, 34);
    assert_eq!(held, whole);
}

#[test]
fn a_type_that_is_not_held_as_itself_has_two_sizes() {
    let raw: Vec<u8> = (0..100).collect();
    let ti = info("t", GgmlType::BF16, [6, 2, 1, 1], 5);
    let held = load_gguf_tensor(10, &raw, &ti, "n");
    assert_eq!((held.ttype, held.strides), (TensorType::I8, [1, 6, 12, 12]));
    assert_eq!(held.data, raw[15..27]);
    let stored = load_tensor(10, &raw, &ti, "n", Geometry::Stored);
    assert_eq!((stored.ttype, stored.strides), (TensorType::I8, [2, 12, 24, 24]));
    assert_eq!(stored.data, raw[15..39]);
    let q = info("q", GgmlType::Q5_1, [32, 2, 1, 1], 0);
    let a = load_tensor(0, &raw, &q, "n", Geometry::Held);
    let b = load_tensor(0, &raw, &q, "n", Geometry::Stored);
    assert_eq!((a.strides, a.data), (b.strides, b.data));
}

#[test]
fn qwen2_cuts_tensors_as_held_and_qwen3_as_stored() {
    let bytes = |arch: &str| {
        let extra = vec![number(&format!("{arch}.attention.key_length"), 4)];
        let mut f = file(arch, extra, &NAMES);
        f.parts[0].ctx.info[2].type_ = GgmlType::F64;
        f.parts[0].data.resize(1 << 12, 0);
        match load_model_configured(&f, "", OffloadState::cpu_only(1)) {
            Some(LoadedModel::Qwen2(m)) => m.layers[0].wq.as_ref().unwrap().data.len(),
            Some(LoadedModel::Qwen3(m)) => m.layers[0].wq.as_ref().unwrap().data.len(),
            None => panic!("a model"),
        }
    };
    assert_eq!((bytes("qwen2"), bytes("qwen3")), (64, 512));
}
