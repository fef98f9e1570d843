//! Reading the command line: which option each argument is, what its value is
//! worth, and which mistake is reported.
use crate::graph::offload::{all_digits, digits_value};
use crate::text::{decimal, is_digit, same, to_chars};
use vstd::prelude::*;

verus! {

/// An option without a value.
#[derive(Debug, Clone, Copy, PartialEq, Eq, Structural)]
pub enum Flag {
    Server,
    Meta,
    NoTemplate,
    Conversation,
    SingleTurn,
    Multiline,
    Greedy,
    Graph,
}

/// An option with a value.
#[derive(Debug, Clone, Copy, PartialEq, Eq, Structural)]
pub enum Valued {
    Port,
    NCtx,
    NSlots,
    System,
    Session,
    Color,
    Temp,
    TopK,
    TopP,
    RepeatPenalty,
    FrequencyPenalty,
    PresencePenalty,
    Stop,
    NPredict,
    DumpGraph,
    Seed,
}

/// What an argument is.
#[derive(Debug, Clone, Copy, PartialEq, Eq, Structural)]
pub enum ArgKind {
    Help,
    Version,
    Flag(Flag),
    Valued(Valued),
    /// It begins like an option and is none.
    Unknown,
    Positional,
}

/// What an argument is.
pub open spec fn kind_spec(a: Seq<char>) -> ArgKind {
    if a == "-h"@ || a == "--help"@ {
        ArgKind::Help
    } else if a == "-V"@ || a == "--version"@ {
        ArgKind::Version
    } else if a == "--server"@ {
        ArgKind::Flag(Flag::Server)
    } else if a == "--meta"@ {
        ArgKind::Flag(Flag::Meta)
    } else if a == "--no-template"@ {
        ArgKind::Flag(Flag::NoTemplate)
    } else if a == "--cnv"@ || a == "--conversation"@ {
        ArgKind::Flag(Flag::Conversation)
    } else if a == "-st"@ || a == "--single-turn"@ {
        ArgKind::Flag(Flag::SingleTurn)
    } else if a == "-mli"@ || a == "--multiline-input"@ {
        ArgKind::Flag(Flag::Multiline)
    } else if a == "--greedy"@ {
        ArgKind::Flag(Flag::Greedy)
    } else if a == "--graph"@ {
        ArgKind::Flag(Flag::Graph)
    } else if a == "--port"@ {
        ArgKind::Valued(Valued::Port)
    } else if a == "--n-ctx"@ {
        ArgKind::Valued(Valued::NCtx)
    } else if a == "--n-slots"@ {
        ArgKind::Valued(Valued::NSlots)
    } else if a == "--system"@ {
        ArgKind::Valued(Valued::System)
    } else if a == "--session"@ {
        ArgKind::Valued(Valued::Session)
    } else if a == "--color"@ {
        ArgKind::Valued(Valued::Color)
    } else if a == "--temp"@ || a == "-t"@ {
        ArgKind::Valued(Valued::Temp)
    } else if a == "--top-k"@ {
        ArgKind::Valued(Valued::TopK)
    } else if a == "--top-p"@ {
        ArgKind::Valued(Valued::TopP)
    } else if a == "--repeat-penalty"@ {
        ArgKind::Valued(Valued::RepeatPenalty)
    } else if a == "--frequency-penalty"@ {
        ArgKind::Valued(Valued::FrequencyPenalty)
    } else if a == "--presence-penalty"@ {
        ArgKind::Valued(Valued::PresencePenalty)
    } else if a == "--stop"@ {
        ArgKind::Valued(Valued::Stop)
    } else if a == "-n"@ || a == "--n-predict"@ {
        ArgKind::Valued(Valued::NPredict)
    } else if a == "--dump-graph"@ {
        ArgKind::Valued(Valued::DumpGraph)
    } else if a == "--seed"@ {
        ArgKind::Valued(Valued::Seed)
    } else if a.len() > 1 && a[0] == '-' {
        ArgKind::Unknown
    } else {
        ArgKind::Positional
    }
}

/// What an argument is.
pub fn kind(a: &str) -> (r: ArgKind)
    ensures
        r == kind_spec(a@),
{
    if same(a, "-h") || same(a, "--help") {
        ArgKind::Help
    } else if same(a, "-V") || same(a, "--version") {
        ArgKind::Version
    } else if same(a, "--server") {
        ArgKind::Flag(Flag::Server)
    } else if same(a, "--meta") {
        ArgKind::Flag(Flag::Meta)
    } else if same(a, "--no-template") {
        ArgKind::Flag(Flag::NoTemplate)
    } else if same(a, "--cnv") || same(a, "--conversation") {
        ArgKind::Flag(Flag::Conversation)
    } else if same(a, "-st") || same(a, "--single-turn") {
        ArgKind::Flag(Flag::SingleTurn)
    } else if same(a, "-mli") || same(a, "--multiline-input") {
        ArgKind::Flag(Flag::Multiline)
    } else if same(a, "--greedy") {
        ArgKind::Flag(Flag::Greedy)
    } else if same(a, "--graph") {
        ArgKind::Flag(Flag::Graph)
    } else if same(a, "--port") {
        ArgKind::Valued(Valued::Port)
    } else if same(a, "--n-ctx") {
        ArgKind::Valued(Valued::NCtx)
    } else if same(a, "--n-slots") {
        ArgKind::Valued(Valued::NSlots)
    } else if same(a, "--system") {
        ArgKind::Valued(Valued::System)
    } else if same(a, "--session") {
        ArgKind::Valued(Valued::Session)
    } else if same(a, "--color") {
        ArgKind::Valued(Valued::Color)
    } else if same(a, "--temp") || same(a, "-t") {
        ArgKind::Valued(Valued::Temp)
    } else if same(a, "--top-k") {
        ArgKind::Valued(Valued::TopK)
    } else if same(a, "--top-p") {
        ArgKind::Valued(Valued::TopP)
    } else if same(a, "--repeat-penalty") {
        ArgKind::Valued(Valued::RepeatPenalty)
    } else if same(a, "--frequency-penalty") {
        ArgKind::Valued(Valued::FrequencyPenalty)
    } else if same(a, "--presence-penalty") {
        ArgKind::Valued(Valued::PresencePenalty)
    } else if same(a, "--stop") {
        ArgKind::Valued(Valued::Stop)
    } else if same(a, "-n") || same(a, "--n-predict") {
        ArgKind::Valued(Valued::NPredict)
    } else if same(a, "--dump-graph") {
        ArgKind::Valued(Valued::DumpGraph)
    } else if same(a, "--seed") {
        ArgKind::Valued(Valued::Seed)
    } else {
        let v: Vec<char> = to_chars(a);
        if v.len() > 1 && v[0] == '-' {
            ArgKind::Unknown
        } else {
            ArgKind::Positional
        }
    }
}

/// How an option is called in a complaint about its value.
pub open spec fn option_name(v: Valued) -> Seq<char> {
    match v {
        Valued::Port => "--port"@,
        Valued::NCtx => "--n-ctx"@,
        Valued::NSlots => "--n-slots"@,
        Valued::System => "--system"@,
        Valued::Session => "--session"@,
        Valued::Color => "--color"@,
        Valued::Temp => "--temp"@,
        Valued::TopK => "--top-k"@,
        Valued::TopP => "--top-p"@,
        Valued::RepeatPenalty => "--repeat-penalty"@,
        Valued::FrequencyPenalty => "--frequency-penalty"@,
        Valued::PresencePenalty => "--presence-penalty"@,
        Valued::Stop => "--stop"@,
        Valued::NPredict => "-n"@,
        Valued::DumpGraph => "--dump-graph"@,
        Valued::Seed => "--seed"@,
    }
}

fn name_of(v: Valued) -> (r: &'static str)
    ensures
        r@ == option_name(v),
{
    match v {
        Valued::Port => "--port",
        Valued::NCtx => "--n-ctx",
        Valued::NSlots => "--n-slots",
        Valued::System => "--system",
        Valued::Session => "--session",
        Valued::Color => "--color",
        Valued::Temp => "--temp",
        Valued::TopK => "--top-k",
        Valued::TopP => "--top-p",
        Valued::RepeatPenalty => "--repeat-penalty",
        Valued::FrequencyPenalty => "--frequency-penalty",
        Valued::PresencePenalty => "--presence-penalty",
        Valued::Stop => "--stop",
        Valued::NPredict => "-n",
        Valued::DumpGraph => "--dump-graph",
        Valued::Seed => "--seed",
    }
}

/// One thing that the command line says.
pub enum Setting {
    Flag(Flag),
    Value(Valued, String),
    /// The option is the last argument and lacks its value.
    Missing(String),
    Positional(String),
}

/// One thing that the command line says, as a value.
#[verifier::ext_equal]
pub ghost enum SettingView {
    Flag(Flag),
    Value(Valued, Seq<char>),
    Missing(Seq<char>),
    Positional(Seq<char>),
}

impl View for Setting {
    type V = SettingView;

    open spec fn view(&self) -> SettingView {
        match self {
            Setting::Flag(f) => SettingView::Flag(*f),
            Setting::Value(v, s) => SettingView::Value(*v, s@),
            Setting::Missing(s) => SettingView::Missing(s@),
            Setting::Positional(s) => SettingView::Positional(s@),
        }
    }
}

/// What reading the command line comes to.
pub enum Scan {
    /// All of it was read.
    Settings(Vec<Setting>),
    Help,
    Version,
    /// No such option.
    Unknown(String),
}

/// What reading the command line comes to, as a value.
pub ghost enum ScanView {
    Settings(Seq<SettingView>),
    Help,
    Version,
    Unknown(Seq<char>),
}

/// The views of some settings.
pub open spec fn setting_views(v: Seq<Setting>) -> Seq<SettingView> {
    v.map_values(|s: Setting| s@)
}

impl View for Scan {
    type V = ScanView;

    open spec fn view(&self) -> ScanView {
        match self {
            Scan::Settings(v) => ScanView::Settings(setting_views(v@)),
            Scan::Help => ScanView::Help,
            Scan::Version => ScanView::Version,
            Scan::Unknown(s) => ScanView::Unknown(s@),
        }
    }
}

/// The arguments from `i` on, behind what has been read.
pub open spec fn scan_from(args: Seq<String>, i: int, done: Seq<SettingView>) -> ScanView
    decreases args.len() + 1 - i,
{
    if i < 0 || i >= args.len() {
        ScanView::Settings(done)
    } else {
        let a = args[i]@;
        match kind_spec(a) {
            ArgKind::Help => ScanView::Help,
            ArgKind::Version => ScanView::Version,
            ArgKind::Unknown => ScanView::Unknown(a),
            ArgKind::Flag(f) => scan_from(args, i + 1, done.push(SettingView::Flag(f))),
            ArgKind::Valued(v) => scan_from(
                args,
                i + 2,
                done.push(
                    if i + 1 < args.len() {
                        SettingView::Value(v, args[i + 1]@)
                    } else {
                        SettingView::Missing(a)
                    },
                ),
            ),
            ArgKind::Positional => scan_from(args, i + 1, done.push(SettingView::Positional(a))),
        }
    }
}

/// Reads the arguments behind the program's name. The value of an option is the
/// next argument, whatever it looks like. Help, the version and an unknown option
/// end the reading.
pub fn scan(args: &Vec<String>) -> (r: Scan)
    ensures
        r@ == scan_from(args@, 1, Seq::empty()),
{
    let mut done: Vec<Setting> = Vec::new();
    let n: usize = args.len();
    let mut i: usize = 1;
    assert(setting_views(done@) =~= Seq::<SettingView>::empty());
    while i < n
        invariant
            1 <= i,
            n == args@.len(),
            scan_from(args@, 1, Seq::empty()) == scan_from(
                args@,
                i as int,
                setting_views(done@),
            ),
        decreases n - i,
    {
        let a: &str = args[i].as_str();
        let ghost before = done@;
        match kind(a) {
            ArgKind::Help => {
                return Scan::Help;
            },
            ArgKind::Version => {
                return Scan::Version;
            },
            ArgKind::Unknown => {
                return Scan::Unknown(a.to_owned());
            },
            ArgKind::Flag(f) => {
                let s: Setting = Setting::Flag(f);
                let ghost view = s@;
                done.push(s);
                assert(setting_views(done@) =~= setting_views(before).push(view));
                i = i + 1;
            },
            ArgKind::Positional => {
                let s: Setting = Setting::Positional(a.to_owned());
                let ghost view = s@;
                done.push(s);
                assert(setting_views(done@) =~= setting_views(before).push(view));
                i = i + 1;
            },
            ArgKind::Valued(v) => {
                if i + 1 < n {
                    let s: Setting = Setting::Value(v, args[i + 1].clone());
                    let ghost view = s@;
                    done.push(s);
                    assert(setting_views(done@) =~= setting_views(before).push(view));
                    i = i + 2;
                } else {
                    let s: Setting = Setting::Missing(a.to_owned());
                    let ghost view = s@;
                    done.push(s);
                    assert(setting_views(done@) =~= setting_views(before).push(view));
                    assert(scan_from(args@, i + 2, setting_views(done@)) == scan_from(
                        args@,
                        n as int,
                        setting_views(done@),
                    ));
                    i = n;
                }
            },
        }
    }
    Scan::Settings(done)
}

/// When output is coloured.
#[derive(Debug, Clone, Copy, PartialEq, Eq, Structural)]
pub enum ColorMode {
    On,
    Off,
    Auto,
}

impl ColorMode {
    /// Whether output is coloured; `tty` tells whether it goes to a terminal.
    pub fn enabled(self, tty: bool) -> (r: bool)
        ensures
            r == (self is On || (self is Auto && tty)),
    {
        match self {
            ColorMode::On => true,
            ColorMode::Off => false,
            ColorMode::Auto => tty,
        }
    }
}

/// How tokens are generated. The floating-point settings are single-precision
/// numbers, held as their bits.
pub struct GenParams {
    pub n_predict: usize,
    pub temp: u32,
    pub top_k: usize,
    pub top_p: u32,
    pub repeat_penalty: u32,
    pub frequency_penalty: u32,
    pub presence_penalty: u32,
    pub seed: u64,
    pub n_ctx: usize,
    pub stop_strings: Vec<String>,
}

/// What a program run is asked for.
pub struct Options {
    pub params: GenParams,
    pub meta: bool,
    pub no_template: bool,
    pub conversation: bool,
    pub single_turn: bool,
    pub system: Option<String>,
    pub multiline: bool,
    pub color: ColorMode,
    pub session: Option<String>,
    pub dump_graph: Option<String>,
    pub server: bool,
    pub port: u16,
    pub n_slots: usize,
    pub positional: Vec<String>,
}

/// The bits of 0.8, the temperature unless another is asked for.
pub const DEFAULT_TEMP: u32 = 0x3F4CCCCD;

/// The bits of 0.95, the nucleus unless another is asked for.
pub const DEFAULT_TOP_P: u32 = 0x3F733333;

/// The bits of 1.1, the penalty on repeated tokens unless another is asked for.
pub const DEFAULT_REPEAT: u32 = 0x3F8CCCCD;

/// What a program run is asked for, as a value.
#[verifier::ext_equal]
pub ghost struct OptionsView {
    pub n_predict: usize,
    pub temp: u32,
    pub top_k: usize,
    pub top_p: u32,
    pub repeat_penalty: u32,
    pub frequency_penalty: u32,
    pub presence_penalty: u32,
    pub seed: u64,
    pub n_ctx: usize,
    pub stop_strings: Seq<Seq<char>>,
    pub meta: bool,
    pub no_template: bool,
    pub conversation: bool,
    pub single_turn: bool,
    pub system: Option<Seq<char>>,
    pub multiline: bool,
    pub color: ColorMode,
    pub session: Option<Seq<char>>,
    pub dump_graph: Option<Seq<char>>,
    pub server: bool,
    pub port: u16,
    pub n_slots: usize,
    pub positional: Seq<Seq<char>>,
}

/// The texts of some strings.
pub open spec fn texts(v: Seq<String>) -> Seq<Seq<char>> {
    v.map_values(|s: String| s@)
}

/// The text of an optional string.
pub open spec fn opt_text(s: Option<String>) -> Option<Seq<char>> {
    match s {
        Some(s) => Some(s@),
        None => None,
    }
}

impl View for Options {
    type V = OptionsView;

    open spec fn view(&self) -> OptionsView {
        OptionsView {
            n_predict: self.params.n_predict,
            temp: self.params.temp,
            top_k: self.params.top_k,
            top_p: self.params.top_p,
            repeat_penalty: self.params.repeat_penalty,
            frequency_penalty: self.params.frequency_penalty,
            presence_penalty: self.params.presence_penalty,
            seed: self.params.seed,
            n_ctx: self.params.n_ctx,
            stop_strings: texts(self.params.stop_strings@),
            meta: self.meta,
            no_template: self.no_template,
            conversation: self.conversation,
            single_turn: self.single_turn,
            system: opt_text(self.system),
            multiline: self.multiline,
            color: self.color,
            session: opt_text(self.session),
            dump_graph: opt_text(self.dump_graph),
            server: self.server,
            port: self.port,
            n_slots: self.n_slots,
            positional: texts(self.positional@),
        }
    }
}

/// What a program run does that is asked for nothing in particular.
pub open spec fn defaults() -> OptionsView {
    OptionsView {
        n_predict: 512,
        temp: DEFAULT_TEMP,
        top_k: 40,
        top_p: DEFAULT_TOP_P,
        repeat_penalty: DEFAULT_REPEAT,
        frequency_penalty: 0,
        presence_penalty: 0,
        seed: 42,
        n_ctx: 4096,
        stop_strings: Seq::empty(),
        meta: false,
        no_template: false,
        conversation: false,
        single_turn: false,
        system: None,
        multiline: false,
        color: ColorMode::Auto,
        session: None,
        dump_graph: None,
        server: false,
        port: 8080,
        n_slots: 1,
        positional: Seq::empty(),
    }
}

impl Default for GenParams {
    fn default() -> (r: GenParams)
        ensures
            r.n_predict == 512,
            r.temp == DEFAULT_TEMP,
            r.top_k == 40,
            r.top_p == DEFAULT_TOP_P,
            r.repeat_penalty == DEFAULT_REPEAT,
            r.frequency_penalty == 0,
            r.presence_penalty == 0,
            r.seed == 42,
            r.n_ctx == 4096,
            r.stop_strings@ == Seq::<String>::empty(),
    {
        GenParams {
            n_predict: 512,
            temp: DEFAULT_TEMP,
            top_k: 40,
            top_p: DEFAULT_TOP_P,
            repeat_penalty: DEFAULT_REPEAT,
            frequency_penalty: 0,
            presence_penalty: 0,
            seed: 42,
            n_ctx: 4096,
            stop_strings: Vec::new(),
        }
    }
}

impl Default for Options {
    fn default() -> (r: Options)
        ensures
            r@ == defaults(),
    {
        let r: Options = Options {
            params: GenParams::default(),
            meta: false,
            no_template: false,
            conversation: false,
            single_turn: false,
            system: None,
            multiline: false,
            color: ColorMode::Auto,
            session: None,
            dump_graph: None,
            server: false,
            port: 8080,
            n_slots: 1,
            positional: Vec::new(),
        };
        assert(r@ =~= defaults());
        r
    }
}

/// The digits of a number, behind a plus sign if there is one.
pub open spec fn digits_of(s: Seq<char>) -> Seq<char> {
    if s.len() > 0 && s[0] == '+' {
        s.drop_first()
    } else {
        s
    }
}

/// The number that a text spells, up to a limit.
pub open spec fn number_spec(s: Seq<char>, max: int) -> Option<int> {
    let d = digits_of(s);
    if all_digits(d) && digits_value(d) <= max {
        Some(digits_value(d) as int)
    } else {
        None
    }
}

proof fn lemma_prefix_is_less(s: Seq<char>, k: int)
    requires
        0 <= k <= s.len(),
    ensures
        digits_value(s.take(k)) <= digits_value(s),
    decreases s.len() - k,
{
    if k < s.len() {
        lemma_prefix_is_less(s, k + 1);
        assert(s.take(k + 1).drop_last() =~= s.take(k));
    } else {
        assert(s.take(k) =~= s);
    }
}

/// Reads a number, up to a limit.
pub fn parse_number(s: &str, max: u64) -> (r: Option<u64>)
    ensures
        match r {
            Some(n) => number_spec(s@, max as int) == Some(n as int),
            None => number_spec(s@, max as int) is None,
        },
{
    let v: Vec<char> = to_chars(s);
    let ghost d = digits_of(s@);
    let start: usize = if v.len() > 0 && v[0] == '+' {
        1
    } else {
        0
    };
    assert(v@.skip(start as int) =~= d);
    if start == v.len() {
        return None;
    }
    let mut n: u64 = 0;
    let mut i: usize = start;
    while i < v.len()
        invariant
            start <= i <= v@.len(),
            start < v@.len(),
            v@.skip(start as int) == d,
            d.len() == v@.len() - start,
            d == digits_of(s@),
            n == digits_value(d.take(i - start)),
            n <= max,
            forall|k: int| 0 <= k < i - start ==> is_digit(#[trigger] d[k]),
        decreases v@.len() - i,
    {
        let c: char = v[i];
        assert(d[i - start] == c);
        if !('0' <= c && c <= '9') {
            return None;
        }
        let x: u64 = (c as u32 - 48) as u64;
        assert(d.take(i - start + 1).drop_last() =~= d.take(i - start));
        assert(d.take(i - start + 1).last() == c);
        proof {
            lemma_prefix_is_less(d, i - start + 1);
        }
        match n.checked_mul(10) {
            None => {
                return None;
            },
            Some(m) => match m.checked_add(x) {
                None => {
                    return None;
                },
                Some(k) => {
                    if k > max {
                        return None;
                    }
                    n = k;
                },
            },
        }
        i = i + 1;
    }
    assert(d.take(i - start) =~= d);
    Some(n)
}

/// The complaint about an option's value.
pub open spec fn invalid_text(v: Valued, s: Seq<char>) -> Seq<char> {
    "invalid "@ + option_name(v) + " '"@ + s + "'"@ + (if v is Color {
        " (on|off|auto)"@
    } else {
        ""@
    })
}

/// The complaint about an option without a value.
pub open spec fn missing_text(a: Seq<char>) -> Seq<char> {
    "missing value for "@ + a
}

/// The colour mode that a text names.
pub open spec fn color_of(s: Seq<char>) -> Option<ColorMode> {
    if s == "on"@ {
        Some(ColorMode::On)
    } else if s == "off"@ {
        Some(ColorMode::Off)
    } else if s == "auto"@ {
        Some(ColorMode::Auto)
    } else {
        None
    }
}

/// The options with one value set; `None` if the value does not suit the option.
/// `number` is the value of the text where the option wants a floating-point
/// number.
pub open spec fn with_value(
    o: OptionsView,
    v: Valued,
    s: Seq<char>,
    number: Option<u32>,
) -> Option<OptionsView> {
    let word = number_spec(s, usize::MAX as int);
    match v {
        Valued::Port => match number_spec(s, u16::MAX as int) {
            Some(n) => Some(OptionsView { port: n as u16, ..o }),
            None => None,
        },
        Valued::Seed => match number_spec(s, u64::MAX as int) {
            Some(n) => Some(OptionsView { seed: n as u64, ..o }),
            None => None,
        },
        Valued::NCtx => match word {
            Some(n) => Some(OptionsView { n_ctx: n as usize, ..o }),
            None => None,
        },
        Valued::NSlots => match word {
            Some(n) => Some(OptionsView { n_slots: n as usize, ..o }),
            None => None,
        },
        Valued::TopK => match word {
            Some(n) => Some(OptionsView { top_k: n as usize, ..o }),
            None => None,
        },
        Valued::NPredict => match word {
            Some(n) => Some(OptionsView { n_predict: n as usize, ..o }),
            None => None,
        },
        Valued::System => Some(OptionsView { system: Some(s), ..o }),
        Valued::Session => Some(OptionsView { session: Some(s), ..o }),
        Valued::DumpGraph => Some(OptionsView { dump_graph: Some(s), ..o }),
        Valued::Stop => Some(OptionsView { stop_strings: o.stop_strings.push(s), ..o }),
        Valued::Color => match color_of(s) {
            Some(c) => Some(OptionsView { color: c, ..o }),
            None => None,
        },
        Valued::Temp => match number {
            Some(b) => Some(OptionsView { temp: b, ..o }),
            None => None,
        },
        Valued::TopP => match number {
            Some(b) => Some(OptionsView { top_p: b, ..o }),
            None => None,
        },
        Valued::RepeatPenalty => match number {
            Some(b) => Some(OptionsView { repeat_penalty: b, ..o }),
            None => None,
        },
        Valued::FrequencyPenalty => match number {
            Some(b) => Some(OptionsView { frequency_penalty: b, ..o }),
            None => None,
        },
        Valued::PresencePenalty => match number {
            Some(b) => Some(OptionsView { presence_penalty: b, ..o }),
            None => None,
        },
    }
}

/// The options with a flag set.
pub open spec fn with_flag(o: OptionsView, f: Flag) -> OptionsView {
    match f {
        Flag::Server => OptionsView { server: true, ..o },
        Flag::Meta => OptionsView { meta: true, ..o },
        Flag::NoTemplate => OptionsView { no_template: true, ..o },
        Flag::Conversation => OptionsView { conversation: true, ..o },
        Flag::SingleTurn => OptionsView { single_turn: true, ..o },
        Flag::Multiline => OptionsView { multiline: true, ..o },
        Flag::Greedy => OptionsView { temp: 0, ..o },
        Flag::Graph => o,
    }
}

/// The options and the last complaint after a setting.
pub open spec fn after_setting(
    o: OptionsView,
    e: Option<Seq<char>>,
    s: SettingView,
    number: Option<u32>,
) -> (OptionsView, Option<Seq<char>>) {
    match s {
        SettingView::Flag(f) => (with_flag(o, f), e),
        SettingView::Positional(p) => (OptionsView { positional: o.positional.push(p), ..o }, e),
        SettingView::Missing(a) => (o, Some(missing_text(a))),
        SettingView::Value(v, t) => match with_value(o, v, t, number) {
            Some(x) => (x, e),
            None => (o, Some(invalid_text(v, t))),
        },
    }
}

/// The options and the last complaint after the first `n` settings.
pub open spec fn after_settings(
    s: Seq<SettingView>,
    numbers: Seq<Option<u32>>,
    n: int,
) -> (OptionsView, Option<Seq<char>>)
    decreases n,
{
    if n <= 0 {
        (defaults(), None)
    } else {
        let (o, e) = after_settings(s, numbers, n - 1);
        after_setting(o, e, s[n - 1], numbers[n - 1])
    }
}

fn set_number(o: &mut Options, v: Valued, s: &str, number: Option<u32>) -> (ok: bool)
    requires
        v is Temp || v is TopP || v is RepeatPenalty || v is FrequencyPenalty
            || v is PresencePenalty,
    ensures
        match with_value(old(o)@, v, s@, number) {
            Some(x) => ok && final(o)@ == x,
            None => !ok && *final(o) == *old(o),
        },
{
    let ghost before = o@;
    match number {
        None => false,
        Some(b) => {
            match v {
                Valued::Temp => {
                    o.params.temp = b;
                },
                Valued::TopP => {
                    o.params.top_p = b;
                },
                Valued::RepeatPenalty => {
                    o.params.repeat_penalty = b;
                },
                Valued::FrequencyPenalty => {
                    o.params.frequency_penalty = b;
                },
                _ => {
                    o.params.presence_penalty = b;
                },
            }
            assert(o@ =~= with_value(before, v, s@, number)->0);
            true
        },
    }
}

fn set_integer(o: &mut Options, v: Valued, s: &str) -> (ok: bool)
    requires
        v is Port || v is Seed || v is NCtx || v is NSlots || v is TopK || v is NPredict,
    ensures
        match with_value(old(o)@, v, s@, None) {
            Some(x) => ok && final(o)@ == x,
            None => !ok && *final(o) == *old(o),
        },
{
    let ghost before = o@;
    let max: u64 = match v {
        Valued::Port => u16::MAX as u64,
        Valued::Seed => u64::MAX,
        _ => usize::MAX as u64,
    };
    match parse_number(s, max) {
        None => false,
        Some(n) => {
            match v {
                Valued::Port => {
                    o.port = n as u16;
                },
                Valued::Seed => {
                    o.params.seed = n;
                },
                Valued::NCtx => {
                    o.params.n_ctx = n as usize;
                },
                Valued::NSlots => {
                    o.n_slots = n as usize;
                },
                Valued::TopK => {
                    o.params.top_k = n as usize;
                },
                _ => {
                    o.params.n_predict = n as usize;
                },
            }
            assert(o@ =~= with_value(before, v, s@, None)->0);
            true
        },
    }
}

fn set_text(o: &mut Options, v: Valued, s: &str) -> (ok: bool)
    requires
        v is System || v is Session || v is DumpGraph || v is Stop || v is Color,
    ensures
        match with_value(old(o)@, v, s@, None) {
            Some(x) => ok && final(o)@ == x,
            None => !ok && *final(o) == *old(o),
        },
{
    let ghost before = o@;
    match v {
        Valued::System => {
            o.system = Some(s.to_owned());
        },
        Valued::Session => {
            o.session = Some(s.to_owned());
        },
        Valued::DumpGraph => {
            o.dump_graph = Some(s.to_owned());
        },
        Valued::Stop => {
            let ghost stops = o.params.stop_strings@;
            o.params.stop_strings.push(s.to_owned());
            assert(texts(o.params.stop_strings@) =~= texts(stops).push(s@));
        },
        _ => {
            if same(s, "on") {
                o.color = ColorMode::On;
            } else if same(s, "off") {
                o.color = ColorMode::Off;
            } else if same(s, "auto") {
                o.color = ColorMode::Auto;
            } else {
                return false;
            }
        },
    }
    assert(o@ =~= with_value(before, v, s@, None)->0);
    true
}

fn set_value(o: &mut Options, v: Valued, s: &str, number: Option<u32>) -> (ok: bool)
    ensures
        match with_value(old(o)@, v, s@, number) {
            Some(x) => ok && final(o)@ == x,
            None => !ok && *final(o) == *old(o),
        },
{
    match v {
        Valued::Temp | Valued::TopP | Valued::RepeatPenalty | Valued::FrequencyPenalty
        | Valued::PresencePenalty => set_number(o, v, s, number),
        Valued::System | Valued::Session | Valued::DumpGraph | Valued::Stop | Valued::Color => {
            set_text(o, v, s)
        },
        _ => set_integer(o, v, s),
    }
}

fn set_flag(o: &mut Options, f: Flag)
    ensures
        final(o)@ == with_flag(old(o)@, f),
{
    let ghost before = o@;
    match f {
        Flag::Server => {
            o.server = true;
        },
        Flag::Meta => {
            o.meta = true;
        },
        Flag::NoTemplate => {
            o.no_template = true;
        },
        Flag::Conversation => {
            o.conversation = true;
        },
        Flag::SingleTurn => {
            o.single_turn = true;
        },
        Flag::Multiline => {
            o.multiline = true;
        },
        Flag::Greedy => {
            o.params.temp = 0;
        },
        Flag::Graph => {},
    }
    assert(o@ =~= with_flag(before, f));
}

fn invalid(v: Valued, s: &str) -> (r: String)
    ensures
        r@ == invalid_text(v, s@),
{
    let mut r: String = "invalid ".to_owned();
    r.append(name_of(v));
    r.append(" '");
    r.append(s);
    r.append("'");
    match v {
        Valued::Color => r.append(" (on|off|auto)"),
        _ => r.append(""),
    }
    r
}

fn apply_one(o: &mut Options, e: &mut Option<String>, s: &Setting, number: Option<u32>)
    ensures
        (final(o)@, opt_text(*final(e))) == after_setting(old(o)@, opt_text(*old(e)), s@, number),
{
    let ghost before = o@;
    match s {
        Setting::Flag(f) => {
            set_flag(o, *f);
        },
        Setting::Positional(p) => {
            let ghost list = o.positional@;
            o.positional.push(p.clone());
            assert(texts(o.positional@) =~= texts(list).push(p@));
            assert(o@ =~= (OptionsView { positional: before.positional.push(p@), ..before }));
        },
        Setting::Missing(a) => {
            let mut m: String = "missing value for ".to_owned();
            m.append(a.as_str());
            *e = Some(m);
        },
        Setting::Value(v, t) => {
            if !set_value(o, *v, t.as_str(), number) {
                *e = Some(invalid(*v, t.as_str()));
            }
        },
    }
}

/// Puts the settings into effect, one after the other. `numbers` holds, for every
/// setting whose option wants a floating-point number, the bits of its value, if
/// the text spells one. Of several complaints the last is reported.
pub fn apply(settings: &Vec<Setting>, numbers: &Vec<Option<u32>>) -> (r: Result<Options, String>)
    requires
        numbers@.len() == settings@.len(),
    ensures
        ({
            let (o, e) = after_settings(
                setting_views(settings@),
                numbers@,
                settings@.len() as int,
            );
            match e {
                None => r matches Ok(x) && x@ == o,
                Some(m) => r matches Err(x) && x@ == m,
            }
        }),
{
    let mut o: Options = Options::default();
    let mut e: Option<String> = None;
    let mut i: usize = 0;
    let ghost views = setting_views(settings@);
    while i < settings.len()
        invariant
            i <= settings@.len(),
            numbers@.len() == settings@.len(),
            views == setting_views(settings@),
            (o@, opt_text(e)) == after_settings(views, numbers@, i as int),
        decreases settings@.len() - i,
    {
        assert(views[i as int] == settings@[i as int]@);
        apply_one(&mut o, &mut e, &settings[i], numbers[i]);
        i = i + 1;
    }
    match e {
        Some(m) => Err(m),
        None => Ok(o),
    }
}

/// The names of all options, long and short, and what each stands for. Anything else that
/// starts with a dash and goes on is no option, and what does not is an argument.
pub proof fn law_names_of_the_options(a: Seq<char>)
    ensures
        kind_spec("-h"@) == ArgKind::Help,
        kind_spec("--help"@) == ArgKind::Help,
        kind_spec("-V"@) == ArgKind::Version,
        kind_spec("--version"@) == ArgKind::Version,
        kind_spec("--server"@) == ArgKind::Flag(Flag::Server),
        kind_spec("--meta"@) == ArgKind::Flag(Flag::Meta),
        kind_spec("--no-template"@) == ArgKind::Flag(Flag::NoTemplate),
        kind_spec("--cnv"@) == ArgKind::Flag(Flag::Conversation),
        kind_spec("--conversation"@) == ArgKind::Flag(Flag::Conversation),
        kind_spec("-st"@) == ArgKind::Flag(Flag::SingleTurn),
        kind_spec("--single-turn"@) == ArgKind::Flag(Flag::SingleTurn),
        kind_spec("-mli"@) == ArgKind::Flag(Flag::Multiline),
        kind_spec("--multiline-input"@) == ArgKind::Flag(Flag::Multiline),
        kind_spec("--greedy"@) == ArgKind::Flag(Flag::Greedy),
        kind_spec("--graph"@) == ArgKind::Flag(Flag::Graph),
        kind_spec("--port"@) == ArgKind::Valued(Valued::Port),
        kind_spec("--n-ctx"@) == ArgKind::Valued(Valued::NCtx),
        kind_spec("--n-slots"@) == ArgKind::Valued(Valued::NSlots),
        kind_spec("--system"@) == ArgKind::Valued(Valued::System),
        kind_spec("--session"@) == ArgKind::Valued(Valued::Session),
        kind_spec("--color"@) == ArgKind::Valued(Valued::Color),
        kind_spec("--temp"@) == ArgKind::Valued(Valued::Temp),
        kind_spec("-t"@) == ArgKind::Valued(Valued::Temp),
        kind_spec("--top-k"@) == ArgKind::Valued(Valued::TopK),
        kind_spec("--top-p"@) == ArgKind::Valued(Valued::TopP),
        kind_spec("--repeat-penalty"@) == ArgKind::Valued(Valued::RepeatPenalty),
        kind_spec("--frequency-penalty"@) == ArgKind::Valued(Valued::FrequencyPenalty),
        kind_spec("--presence-penalty"@) == ArgKind::Valued(Valued::PresencePenalty),
        kind_spec("--stop"@) == ArgKind::Valued(Valued::Stop),
        kind_spec("-n"@) == ArgKind::Valued(Valued::NPredict),
        kind_spec("--n-predict"@) == ArgKind::Valued(Valued::NPredict),
        kind_spec("--dump-graph"@) == ArgKind::Valued(Valued::DumpGraph),
        kind_spec("--seed"@) == ArgKind::Valued(Valued::Seed),
        kind_spec(a) is Unknown ==> a.len() > 1 && a[0] == '-',
        a.len() > 0 && a[0] != '-' ==> kind_spec(a) is Positional,
        a.len() <= 1 ==> kind_spec(a) is Positional,
{
    reveal_strlit("-h");
    reveal_strlit("--help");
    reveal_strlit("-V");
    reveal_strlit("--version");
    reveal_strlit("--server");
    reveal_strlit("--meta");
    reveal_strlit("--no-template");
    reveal_strlit("--cnv");
    reveal_strlit("--conversation");
    reveal_strlit("-st");
    reveal_strlit("--single-turn");
    reveal_strlit("-mli");
    reveal_strlit("--multiline-input");
    reveal_strlit("--greedy");
    reveal_strlit("--graph");
    reveal_strlit("--port");
    reveal_strlit("--n-ctx");
    reveal_strlit("--n-slots");
    reveal_strlit("--system");
    reveal_strlit("--session");
    reveal_strlit("--color");
    reveal_strlit("--temp");
    reveal_strlit("-t");
    reveal_strlit("--top-k");
    reveal_strlit("--top-p");
    reveal_strlit("--repeat-penalty");
    reveal_strlit("--frequency-penalty");
    reveal_strlit("--presence-penalty");
    reveal_strlit("--stop");
    reveal_strlit("-n");
    reveal_strlit("--n-predict");
    reveal_strlit("--dump-graph");
    reveal_strlit("--seed");
    assert("-h"@.len() == 2);
    assert("--help"@.len() == 6);
    assert("-V"@.len() == 2);
    assert("--version"@.len() == 9);
    assert("--server"@.len() == 8);
    assert("--meta"@.len() == 6);
    assert("--no-template"@.len() == 13);
    assert("--cnv"@.len() == 5);
    assert("--conversation"@.len() == 14);
    assert("-st"@.len() == 3);
    assert("--single-turn"@.len() == 13);
    assert("-mli"@.len() == 4);
    assert("--multiline-input"@.len() == 17);
    assert("--greedy"@.len() == 8);
    assert("--graph"@.len() == 7);
    assert("--port"@.len() == 6);
    assert("--n-ctx"@.len() == 7);
    assert("--n-slots"@.len() == 9);
    assert("--system"@.len() == 8);
    assert("--session"@.len() == 9);
    assert("--color"@.len() == 7);
    assert("--temp"@.len() == 6);
    assert("-t"@.len() == 2);
    assert("--top-k"@.len() == 7);
    assert("--top-p"@.len() == 7);
    assert("--repeat-penalty"@.len() == 16);
    assert("--frequency-penalty"@.len() == 19);
    assert("--presence-penalty"@.len() == 18);
    assert("--stop"@.len() == 6);
    assert("-n"@.len() == 2);
    assert("--n-predict"@.len() == 11);
    assert("--dump-graph"@.len() == 12);
    assert("--seed"@.len() == 6);
    assert("-V"@[1] == 'V');
    assert("-h"@[1] == 'h');
    assert("-n"@[1] == 'n');
    assert("-t"@[1] == 't');
    assert("--help"@[2] == 'h');
    assert("--meta"@[2] == 'm');
    assert("--port"@[2] == 'p');
    assert("--seed"@[2] == 's');
    assert("--seed"@[3] == 'e');
    assert("--stop"@[2] == 's');
    assert("--stop"@[3] == 't');
    assert("--temp"@[2] == 't');
    assert("--color"@[2] == 'c');
    assert("--graph"@[2] == 'g');
    assert("--n-ctx"@[2] == 'n');
    assert("--top-k"@[2] == 't');
    assert("--top-k"@[6] == 'k');
    assert("--top-p"@[2] == 't');
    assert("--top-p"@[6] == 'p');
    assert("--greedy"@[2] == 'g');
    assert("--server"@[2] == 's');
    assert("--server"@[3] == 'e');
    assert("--system"@[2] == 's');
    assert("--system"@[3] == 'y');
    assert("--n-slots"@[2] == 'n');
    assert("--session"@[2] == 's');
    assert("--version"@[2] == 'v');
    assert("--no-template"@[2] == 'n');
    assert("--single-turn"@[2] == 's');
}

/// An option sets what it is named for and nothing else; a number that does not fit and a
/// text that is none of a colour's are refused.
pub proof fn law_options_set_their_own(
    o: OptionsView,
    v: Valued,
    s: Seq<char>,
    number: Option<u32>,
)
    ensures
        ({
            let r = with_value(o, v, s, number);
            &&& v is Port ==> match number_spec(s, u16::MAX as int) {
                Some(n) => r matches Some(x) && x.port == n && x == (OptionsView { port: x.port, ..o }),
                None => r is None,
            }
            &&& v is Seed ==> match number_spec(s, u64::MAX as int) {
                Some(n) => r matches Some(x) && x.seed == n && x == (OptionsView { seed: x.seed, ..o }),
                None => r is None,
            }
            &&& v is NCtx ==> match number_spec(s, usize::MAX as int) {
                Some(n) => r matches Some(x) && x.n_ctx == n && x == (OptionsView { n_ctx: x.n_ctx, ..o }),
                None => r is None,
            }
            &&& v is NSlots ==> match number_spec(s, usize::MAX as int) {
                Some(n) => r matches Some(x) && x.n_slots == n && x == (OptionsView { n_slots: x.n_slots, ..o }),
                None => r is None,
            }
            &&& v is TopK ==> match number_spec(s, usize::MAX as int) {
                Some(n) => r matches Some(x) && x.top_k == n && x == (OptionsView { top_k: x.top_k, ..o }),
                None => r is None,
            }
            &&& v is NPredict ==> match number_spec(s, usize::MAX as int) {
                Some(n) => r matches Some(x) && x.n_predict == n && x == (OptionsView { n_predict: x.n_predict, ..o }),
                None => r is None,
            }
            &&& v is Temp ==> match number {
                Some(b) => r matches Some(x) && x.temp == b && x == (OptionsView { temp: b, ..o }),
                None => r is None,
            }
            &&& v is TopP ==> match number {
                Some(b) => r matches Some(x) && x.top_p == b && x == (OptionsView { top_p: b, ..o }),
                None => r is None,
            }
            &&& v is RepeatPenalty ==> match number {
                Some(b) => r matches Some(x) && x.repeat_penalty == b && x == (OptionsView { repeat_penalty: b, ..o }),
                None => r is None,
            }
            &&& v is FrequencyPenalty ==> match number {
                Some(b) => r matches Some(x) && x.frequency_penalty == b && x == (OptionsView { frequency_penalty: b, ..o }),
                None => r is None,
            }
            &&& v is PresencePenalty ==> match number {
                Some(b) => r matches Some(x) && x.presence_penalty == b && x == (OptionsView { presence_penalty: b, ..o }),
                None => r is None,
            }
            &&& v is System ==> (r matches Some(x) && x.system == Some(s) && x == (OptionsView {
                system: Some(s),
                ..o
            }))
            &&& v is Session ==> (r matches Some(x) && x.session == Some(s) && x == (OptionsView {
                session: Some(s),
                ..o
            }))
            &&& v is DumpGraph ==> (r matches Some(x) && x.dump_graph == Some(s) && x == (OptionsView {
                dump_graph: Some(s),
                ..o
            }))
            &&& v is Stop ==> (r matches Some(x) && x.stop_strings == o.stop_strings.push(s) && x == (
            OptionsView { stop_strings: x.stop_strings, ..o }))
            &&& v is Color && s == "on"@ ==> (r matches Some(x) && x == (OptionsView {
                color: ColorMode::On,
                ..o
            }))
            &&& v is Color && s == "off"@ ==> (r matches Some(x) && x == (OptionsView {
                color: ColorMode::Off,
                ..o
            }))
            &&& v is Color && s == "auto"@ ==> (r matches Some(x) && x == (OptionsView {
                color: ColorMode::Auto,
                ..o
            }))
            &&& v is Color && s != "on"@ && s != "off"@ && s != "auto"@ ==> r is None
        }),
{
    reveal_strlit("on");
    reveal_strlit("off");
    reveal_strlit("auto");
    assert("on"@.len() == 2 && "off"@.len() == 3 && "auto"@.len() == 4);
}

/// A switch turns on what it is named for and nothing else; greedy sampling is a
/// temperature of zero.
pub proof fn law_switches_turn_on_their_own(o: OptionsView)
    ensures
        with_flag(o, Flag::Server) == (OptionsView { server: true, ..o }),
        with_flag(o, Flag::Meta) == (OptionsView { meta: true, ..o }),
        with_flag(o, Flag::NoTemplate) == (OptionsView { no_template: true, ..o }),
        with_flag(o, Flag::Conversation) == (OptionsView { conversation: true, ..o }),
        with_flag(o, Flag::SingleTurn) == (OptionsView { single_turn: true, ..o }),
        with_flag(o, Flag::Multiline) == (OptionsView { multiline: true, ..o }),
        with_flag(o, Flag::Greedy) == (OptionsView { temp: 0, ..o }),
        with_flag(o, Flag::Graph) == o,
{
}

/// Numbers on the command line are decimal digits, behind a plus or not, up to the largest
/// that is taken.
pub proof fn law_numbers_on_the_command_line(n: nat, max: int)
    requires
        0 <= max,
    ensures
        n <= max ==> number_spec(decimal(n), max) == Some(n as int),
        n > max ==> number_spec(decimal(n), max) is None,
        number_spec(seq!['+'] + decimal(n), max) == number_spec(decimal(n), max),
        number_spec(Seq::<char>::empty(), max) is None,
        number_spec(seq!['+'], max) is None,
{
    crate::graph::offload::lemma_digits_of_decimal(n);
    let d = decimal(n);
    let p = seq!['+'] + d;
    assert(is_digit(d[0]));
    assert(p.drop_first() =~= d);
    assert(seq!['+'].drop_first() =~= Seq::<char>::empty());
}

/// What is read of the settings in front does not depend on those behind, a mistake stays
/// until another one follows, and a valid setting leaves it.
pub proof fn law_settings_take_effect_in_order(
    s: Seq<SettingView>,
    numbers: Seq<Option<u32>>,
    n: int,
)
    requires
        0 < n <= s.len(),
        numbers.len() == s.len(),
    ensures
        ({
            let (o, e) = after_settings(s, numbers, n - 1);
            let (o2, e2) = after_settings(s, numbers, n);
            &&& s[n - 1] matches SettingView::Flag(f) ==> o2 == with_flag(o, f) && e2 == e
            &&& s[n - 1] matches SettingView::Positional(p) ==> o2.positional == o.positional.push(
                p,
            ) && e2 == e && o2 == (OptionsView { positional: o2.positional, ..o })
            &&& s[n - 1] is Missing ==> o2 == o && e2 is Some
            &&& s[n - 1] matches SettingView::Value(v, t) ==> match with_value(
                o,
                v,
                t,
                numbers[n - 1],
            ) {
                Some(x) => o2 == x && e2 == e,
                None => o2 == o && e2 is Some,
            }
        }),
        after_settings(s, numbers, 0).1 is None,
        ({
            let d = after_settings(s, numbers, 0).0;
            &&& d.n_predict == 512 && d.top_k == 40 && d.seed == 42 && d.n_ctx == 4096
            &&& d.port == 8080 && d.n_slots == 1 && d.color is Auto
            &&& d.temp == 0x3F4CCCCD && d.top_p == 0x3F733333 && d.repeat_penalty == 0x3F8CCCCD
            &&& d.frequency_penalty == 0 && d.presence_penalty == 0
            &&& !d.meta && !d.no_template && !d.conversation && !d.single_turn && !d.multiline
            &&& !d.server && d.system is None && d.session is None && d.dump_graph is None
            &&& d.stop_strings.len() == 0 && d.positional.len() == 0
        }),
{
}

/// Arguments are read one after the other: an option takes the argument behind it, if there
/// is one, and asking for help or for the version ends the reading, as does an option that
/// there is not.
pub proof fn law_arguments_in_order(args: Seq<String>, i: int, done: Seq<SettingView>)
    requires
        0 <= i < args.len(),
    ensures
        ({
            let a = args[i]@;
            let r = scan_from(args, i, done);
            &&& kind_spec(a) is Help ==> r is Help
            &&& kind_spec(a) is Version ==> r is Version
            &&& kind_spec(a) is Unknown ==> r == ScanView::Unknown(a)
            &&& kind_spec(a) is Positional ==> r == scan_from(
                args,
                i + 1,
                done.push(SettingView::Positional(a)),
            )
            &&& kind_spec(a) matches ArgKind::Flag(f) ==> r == scan_from(
                args,
                i + 1,
                done.push(SettingView::Flag(f)),
            )
            &&& kind_spec(a) matches ArgKind::Valued(v) ==> (i + 1 < args.len() ==> r == scan_from(
                args,
                i + 2,
                done.push(SettingView::Value(v, args[i + 1]@)),
            )) && (i + 1 == args.len() ==> r == ScanView::Settings(
                done.push(SettingView::Missing(a)),
            ))
        }),
        scan_from(args, args.len() as int, done) == ScanView::Settings(done),
{
    reveal_with_fuel(scan_from, 2);
}

/// What is said of a value that is refused or missing names the option and the value.
pub proof fn law_what_is_said_of_bad_values(v: Valued, s: Seq<char>, a: Seq<char>)
    ensures
        !(v is Color) ==> invalid_text(v, s) == "invalid "@ + option_name(v) + " '"@ + s + "'"@,
        v is Color ==> invalid_text(v, s) == "invalid --color '"@ + s + "' (on|off|auto)"@,
        missing_text(a) == "missing value for "@ + a,
        kind_spec(option_name(v)) == ArgKind::Valued(v),
{
    reveal_strlit("");
    reveal_strlit("invalid ");
    reveal_strlit("--color");
    reveal_strlit(" '");
    reveal_strlit("'");
    reveal_strlit("invalid --color '");
    reveal_strlit(" (on|off|auto)");
    reveal_strlit("' (on|off|auto)");
    let t = "invalid "@ + option_name(v) + " '"@ + s + "'"@;
    assert(t + ""@ =~= t);
    if v is Color {
        assert("invalid "@ + "--color"@ + " '"@ =~= "invalid --color '"@);
        assert(invalid_text(v, s) =~= "invalid --color '"@ + s + "' (on|off|auto)"@);
    }
    law_names_of_the_options(s);
}

} // verus!
