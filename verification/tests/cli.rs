//! The command line, the conversation loop and the description of a model file.
use minfer::cli::args::{
    apply, kind, parse_number, scan, ArgKind, ColorMode, Options, Scan, Setting, Valued,
    DEFAULT_REPEAT, DEFAULT_TEMP, DEFAULT_TOP_P,
};
use minfer::cli::command::{command, server_refusal, Command};
use minfer::cli::dump::{
    array_label, dims_text, dump_array, key_tensors, kv_line, shows_value, tensor_line,
};
use minfer::cli::repl::{
    end_tokens, interpret, is_stop_token, read_user_input, turn_end, LineStep, Repl, ReplAction,
    ReplEvent,
};
use minfer::cli::words::{first_word, join_from, starts_with, strip_line_end, trim};
use minfer::gguf::{GgmlType, GgufContext, GgufKv, GgufTensorInfo, GgufType};
use minfer::models::SpecialTokens;

fn args(line: &[&str]) -> Vec<String> {
    let mut v = vec!["minfer".to_string()];
    v.extend(line.iter().map(|s| s.to_string()));
    v
}

fn settings(line: &[&str]) -> Vec<Setting> {
    match scan(&args(line)) {
        Scan::Settings(s) => s,
        _ => panic!("not all of {line:?} was read"),
    }
}

fn parse(line: &[&str]) -> Result<Options, String> {
    let s = settings(line);
    let numbers = s
        .iter()
        .map(|s| match s {
            Setting::Value(
                Valued::Temp
                | Valued::TopP
                | Valued::RepeatPenalty
                | Valued::FrequencyPenalty
                | Valued::PresencePenalty,
                t,
            ) => t.parse::<f32>().ok().map(f32::to_bits),
            _ => None,
        })
        .collect();
    apply(&s, &numbers)
}

fn options(line: &[&str]) -> Options {
    match parse(line) {
        Ok(o) => o,
        Err(e) => panic!("{e}"),
    }
}

fn complaint(line: &[&str]) -> String {
    match parse(line) {
        Ok(_) => panic!("{line:?} is accepted"),
        Err(e) => e,
    }
}

#[test]
fn the_defaults_are_the_documented_ones() {
    let o = options(&["m"]);
    assert_eq!(o.params.n_predict, 512);
    assert_eq!(o.params.temp, 0.8f32.to_bits());
    assert_eq!(o.params.temp, DEFAULT_TEMP);
    assert_eq!(o.params.top_k, 40);
    assert_eq!(o.params.top_p, 0.95f32.to_bits());
    assert_eq!(o.params.top_p, DEFAULT_TOP_P);
    assert_eq!(o.params.repeat_penalty, 1.1f32.to_bits());
    assert_eq!(o.params.repeat_penalty, DEFAULT_REPEAT);
    assert_eq!(o.params.frequency_penalty, 0.0f32.to_bits());
    assert_eq!(o.params.presence_penalty, 0.0f32.to_bits());
    assert_eq!((o.params.seed, o.params.n_ctx, o.port, o.n_slots), (42, 4096, 8080, 1));
    assert_eq!(o.color, ColorMode::Auto);
    assert!(!o.server && !o.meta && !o.conversation && !o.single_turn && !o.multiline);
    assert_eq!(o.positional, vec!["m"]);
}

#[test]
fn options_take_effect_in_order() {
    let o = options(&[
        "--cnv", "-st", "-mli", "--meta", "--no-template", "--server", "--graph", "--port", "99",
        "--n-ctx", "128", "--n-slots", "4", "--system", "be brief", "--session", "s.json",
        "--color", "on", "-t", "0.5", "--top-k", "7", "--top-p", "0.25", "--repeat-penalty", "2",
        "--frequency-penalty", "-1", "--presence-penalty", "0.5", "--stop", "a", "--stop", "b",
        "-n", "10", "--dump-graph", "g.dot", "--seed", "3", "m", "hi",
    ]);
    assert!(o.conversation && o.single_turn && o.multiline && o.meta && o.no_template && o.server);
    assert_eq!((o.port, o.params.n_ctx, o.n_slots), (99, 128, 4));
    assert_eq!(o.system.as_deref(), Some("be brief"));
    assert_eq!(o.session.as_deref(), Some("s.json"));
    assert_eq!(o.color, ColorMode::On);
    assert_eq!(o.params.temp, 0.5f32.to_bits());
    assert_eq!(o.params.top_k, 7);
    assert_eq!(o.params.top_p, 0.25f32.to_bits());
    assert_eq!(o.params.repeat_penalty, 2.0f32.to_bits());
    assert_eq!(o.params.frequency_penalty, (-1.0f32).to_bits());
    assert_eq!(o.params.presence_penalty, 0.5f32.to_bits());
    assert_eq!(o.params.stop_strings, vec!["a", "b"]);
    assert_eq!((o.params.n_predict, o.params.seed), (10, 3));
    assert_eq!(o.dump_graph.as_deref(), Some("g.dot"));
    assert_eq!(o.positional, vec!["m", "hi"]);
    assert_eq!(options(&["--temp", "0.5", "--greedy"]).params.temp, 0);
    assert_eq!(options(&["--greedy", "--temp", "0.5"]).params.temp, 0.5f32.to_bits());
}

#[test]
fn mistakes_are_reported() {
    assert_eq!(complaint(&["m", "--port"]), "missing value for --port");
    assert_eq!(complaint(&["m", "-n"]), "missing value for -n");
    assert_eq!(complaint(&["--port", "70000"]), "invalid --port '70000'");
    assert_eq!(complaint(&["--n-ctx", "x"]), "invalid --n-ctx 'x'");
    assert_eq!(complaint(&["--n-slots", "-1"]), "invalid --n-slots '-1'");
    assert_eq!(complaint(&["-t", "hot"]), "invalid --temp 'hot'");
    assert_eq!(complaint(&["--top-k", ""]), "invalid --top-k ''");
    assert_eq!(complaint(&["--top-p", "p"]), "invalid --top-p 'p'");
    assert_eq!(complaint(&["--repeat-penalty", "p"]), "invalid --repeat-penalty 'p'");
    assert_eq!(complaint(&["--frequency-penalty", "p"]), "invalid --frequency-penalty 'p'");
    assert_eq!(complaint(&["--presence-penalty", "p"]), "invalid --presence-penalty 'p'");
    assert_eq!(complaint(&["--n-predict", "p"]), "invalid -n 'p'");
    assert_eq!(complaint(&["--seed", "p"]), "invalid --seed 'p'");
    assert_eq!(complaint(&["--color", "red"]), "invalid --color 'red' (on|off|auto)");
    assert_eq!(complaint(&["--seed", "p", "--port", "q"]), "invalid --port 'q'");
}

#[test]
fn help_version_and_unknown_options_end_the_reading() {
    assert!(matches!(scan(&args(&["m", "-h", "--nope"])), Scan::Help));
    assert!(matches!(scan(&args(&["--version"])), Scan::Version));
    match scan(&args(&["m", "--nope", "-h"])) {
        Scan::Unknown(a) => assert_eq!(a, "--nope"),
        _ => panic!("--nope is no option"),
    }
    assert_eq!(kind("-"), ArgKind::Positional);
    assert_eq!(kind("-x"), ArgKind::Unknown);
    assert_eq!(options(&["--system", "--help"]).system.as_deref(), Some("--help"));
}

#[test]
fn numbers_are_unsigned_decimals() {
    assert_eq!(parse_number("0065535", 65535), Some(65535));
    assert_eq!(parse_number("65536", 65535), None);
    assert_eq!(parse_number("+7", 10), Some(7));
    for s in ["", "+", "-1", " 1", "1.0", "a"] {
        assert_eq!(parse_number(s, u64::MAX), None, "{s:?}");
    }
    assert_eq!(parse_number("18446744073709551615", u64::MAX), Some(u64::MAX));
    assert_eq!(parse_number("18446744073709551616", u64::MAX), None);
}

#[test]
fn colour_follows_the_terminal_unless_told_otherwise() {
    assert!(ColorMode::On.enabled(false));
    assert!(!ColorMode::Off.enabled(true));
    assert!(ColorMode::Auto.enabled(true));
    assert!(!ColorMode::Auto.enabled(false));
}

#[test]
fn the_first_word_selects_the_command() {
    assert!(matches!(command(&options(&[])), Command::Usage));
    assert!(matches!(command(&options(&["download"])), Command::DownloadUsage));
    assert!(matches!(command(&options(&["download", "hf"])), Command::SourceUsage(s) if s == "hf"));
    assert!(matches!(command(&options(&["download", "hf:a", "b"])), Command::UriUsage));
    assert!(matches!(command(&options(&["download", "ftp"])), Command::UnknownSource(s) if s == "ftp"));
    assert!(matches!(
        command(&options(&["download", "hf", "org/repo", "Q4_0"])),
        Command::Download(s) if s == "hf:org/repo:Q4_0"
    ));
    assert!(matches!(
        command(&options(&["download", "ollama:qwen"])),
        Command::Download(s) if s == "ollama:qwen"
    ));
    assert!(matches!(command(&options(&["list", "x"])), Command::List));
    assert!(matches!(command(&options(&["info"])), Command::InfoUsage));
    assert!(matches!(command(&options(&["info", "m"])), Command::Info(s) if s == "m"));
    assert!(matches!(command(&options(&["m", "--cnv", "--no-template"])), Command::Conflict));
}

#[test]
fn any_other_word_is_a_model() {
    for (name, expected) in
        [("hf:a", true), ("ollama:a", true), ("a", true), ("/a", false), ("./a", false), ("~/a", false)]
    {
        match command(&options(&[name, "tell", "me"])) {
            Command::Run { model, sought, prompt } => {
                assert_eq!((model.as_str(), sought), (name, expected));
                assert_eq!(prompt.as_deref(), Some("tell me"));
            }
            _ => panic!("{name} is a model"),
        }
    }
    assert!(matches!(command(&options(&["m"])), Command::Run { prompt: None, .. }));
}

#[test]
fn a_server_needs_slots_and_a_context() {
    assert_eq!(server_refusal(&options(&["--n-slots", "0", "--n-ctx", "0"])), Some("--n-slots must be >= 1"));
    assert_eq!(server_refusal(&options(&["--n-ctx", "0"])), Some("--n-ctx must be >= 1"));
    assert_eq!(server_refusal(&options(&[])), None);
}

#[test]
fn words_are_cut_at_white_space() {
    assert_eq!(trim(" \t a b\r\n"), "a b");
    assert_eq!(trim("\u{3000}x\u{a0}"), "x");
    assert_eq!(trim(&trim("  y ")), trim("  y "));
    assert_eq!(trim(" \n"), "");
    assert_eq!(first_word("/help me"), "/help");
    assert_eq!(first_word("  a b"), "a");
    assert_eq!(strip_line_end("a \r\n\n"), "a ");
    assert_eq!(join_from(&args(&["a", "b", "c"]), 2, "-"), "b-c");
    assert!(starts_with("abc", "ab"));
    assert!(!starts_with("a", "ab"));
}

fn read(multiline: bool, lines: &[&str]) -> Option<String> {
    let mut kept = String::new();
    for line in lines {
        if let LineStep::Done(r) = read_user_input(multiline, &mut kept, Some(line)) {
            return r;
        }
    }
    match read_user_input(multiline, &mut kept, None) {
        LineStep::Done(r) => r,
        LineStep::More => panic!("the input has ended"),
    }
}

#[test]
fn input_is_one_line_or_all_before_an_empty_one() {
    assert_eq!(read(false, &["a\r\n", "b\n"]).as_deref(), Some("a"));
    assert_eq!(read(false, &[]), None);
    assert_eq!(read(true, &["a\n", "b\n", "\n", "c\n"]).as_deref(), Some("a\nb"));
    assert_eq!(read(true, &["\n"]).as_deref(), Some(""));
    assert_eq!(read(true, &["a\n"]).as_deref(), Some("a"));
    assert_eq!(read(true, &[]), None);
}

#[test]
fn slash_words_are_commands() {
    assert!(matches!(interpret("/exit now"), ReplAction::End));
    assert!(matches!(interpret("/quit"), ReplAction::End));
    assert!(matches!(interpret("/help"), ReplAction::Help));
    assert!(matches!(interpret("/clear"), ReplAction::Clear));
    assert!(matches!(interpret("/regen"), ReplAction::Regen));
    assert!(matches!(interpret("/dance x"), ReplAction::Unknown(c) if c == "/dance"));
    assert!(matches!(interpret("hi /exit"), ReplAction::Turn(t) if t == "hi /exit"));
}

#[test]
fn a_conversation_reads_answers_and_ends() {
    let mut r = Repl::new(false);
    assert!(matches!(r.next(&ReplEvent::Start(Some("hi".into()))), ReplAction::Turn(t) if t == "hi"));
    assert!(matches!(r.next(&ReplEvent::Answered(true)), ReplAction::Read));
    assert!(matches!(r.next(&ReplEvent::Input(Some("  \n".into()))), ReplAction::Read));
    assert!(matches!(r.next(&ReplEvent::Input(Some(" /help ".into()))), ReplAction::Help));
    assert!(matches!(r.next(&ReplEvent::Shown), ReplAction::Read));
    assert!(matches!(r.next(&ReplEvent::Answered(false)), ReplAction::Read));
    assert_eq!(r.turn, 1);
    assert!(matches!(r.next(&ReplEvent::Input(None)), ReplAction::End));
}

#[test]
fn a_single_turn_ends_the_conversation() {
    for ok in [true, false] {
        let mut r = Repl::new(true);
        assert!(matches!(r.next(&ReplEvent::Start(None)), ReplAction::Read));
        assert!(matches!(r.next(&ReplEvent::Answered(ok)), ReplAction::End));
        assert_eq!(r.turn, ok as usize);
    }
}

#[test]
fn end_tokens_stop_a_generation() {
    let both = SpecialTokens { eos: 1, im_end: Some(2) };
    let one = SpecialTokens { eos: 1, im_end: None };
    assert!(is_stop_token(1, &both) && is_stop_token(2, &both) && !is_stop_token(2, &one));
    assert_eq!(end_tokens(&both), vec![1, 2]);
    assert_eq!(end_tokens(&one), vec![1]);
    assert_eq!((turn_end(&both), turn_end(&one)), (2, 1));
}

fn items(n: usize) -> Vec<String> {
    (0..n).map(|i| i.to_string()).collect()
}

#[test]
fn long_arrays_are_shown_by_their_ends() {
    assert_eq!(dump_array("k", "i32", &items(0)), "  k (arr:i32) = []");
    assert_eq!(dump_array("k", "i32", &items(8)), "  k (arr:i32) = [0, 1, 2, 3, 4, 5, 6, 7]");
    assert_eq!(dump_array("k", "u32", &items(9)), "  k (arr:u32) = [0, 1, 2, 3, 4, ..., 6, 7, 8]");
    assert_eq!(array_label(GgufType::Float64), Some("f64"));
    assert_eq!(array_label(GgufType::Bool), None);
    assert!(shows_value(GgufType::Bool) && !shows_value(GgufType::Uint8));
}

#[test]
fn key_tensors_come_in_their_own_order() {
    let named = |name: &str| GgufTensorInfo {
        name: name.to_string(),
        type_: GgmlType::F32,
        ne: [1, 1, 1, 1],
        offset: 0,
    };
    let ctx = GgufContext {
        kv: Vec::new(),
        info: vec![
            named("output.weight"),
            named("blk.1.attn_q.weight"),
            named("token_embd.weight"),
            named("token_embd.weight"),
        ],
        offset: 0,
    };
    assert_eq!(key_tensors(&ctx), vec![2, 0]);
    assert_eq!(dims_text(&[896, 151936, 1, 1]), "896,151936,1,1");
    assert_eq!(dims_text(&[4, 0, -1, 2]), "4,2");
    assert_eq!(dims_text(&[0, 0, 0, 0]), "1");
}

#[test]
fn a_key_has_a_line() {
    let kv = |is_array: bool, type_: GgufType, n: usize| GgufKv {
        key: "k".to_string(),
        is_array,
        type_,
        data: vec![0; n],
        data_string: Vec::new(),
    };
    let items = vec!["7".to_string(), "8".to_string()];
    assert_eq!(kv_line(&kv(true, GgufType::Int32, 8), "Int32", &items), "  k (arr:i32) = [7, 8]");
    assert_eq!(
        kv_line(&kv(true, GgufType::Bool, 12), "Bool", &Vec::new()),
        "  k (arr:Bool) = <12 elements>"
    );
    assert_eq!(kv_line(&kv(false, GgufType::String, 0), "String", &items), "  k = \"7\"");
    assert_eq!(kv_line(&kv(false, GgufType::Float32, 4), "Float32", &items), "  k = 7");
    assert_eq!(kv_line(&kv(false, GgufType::Int8, 1), "Int8", &Vec::new()), "  k (Int8)");
}

#[test]
fn a_tensor_has_a_line() {
    let t = |name: &str| GgufTensorInfo {
        name: name.to_string(),
        type_: GgmlType::F32,
        ne: [4, 2, 1, 1],
        offset: 0,
    };
    let blanks = " ".repeat(44);
    assert_eq!(tensor_line(&t("output"), "f32"), format!("  output{blanks} f32  [4,2,1,1]"));
    let long = "x".repeat(51);
    assert_eq!(tensor_line(&t(&long), "f32"), format!("  {long} f32  [4,2,1,1]"));
}
