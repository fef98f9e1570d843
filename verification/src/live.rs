//! Events for those who watch a generation: what is remembered between them, when
//! they are sent, and their texts.
//!
//! The channel belongs to the caller: a function that has something to send
//! returns its text.
use vstd::prelude::*;

verus! {

#[verifier::external_type_specification]
#[verifier::external_body]
pub struct ExValue(serde_json::Value);

#[verifier::external_type_specification]
#[verifier::external_body]
#[verifier::reject_recursive_types(K)]
#[verifier::reject_recursive_types(V)]
pub struct ExMap<K, V>(serde_json::Map<K, V>);

/// A value of an event.
pub ghost enum Scalar {
    Text(Seq<char>),
    Number(nat),
    /// Anything else, by its own JSON text.
    Other(Seq<char>),
}

/// The entries of a JSON object.
pub uninterp spec fn fields(m: serde_json::Map<String, serde_json::Value>) -> Map<
    Seq<char>,
    Scalar,
>;

/// The JSON text of an object with these entries: what `serde_json::Value` writes
/// as its `Display` form.
pub uninterp spec fn object_text(entries: Map<Seq<char>, Scalar>) -> Seq<char>;

/// No entry.
pub open spec fn no_fields() -> Map<Seq<char>, Scalar> {
    Map::empty()
}

/// `serde_json::Map::new`: an object without entries.
#[verifier::external_body]
fn empty_object() -> (m: serde_json::Map<String, serde_json::Value>)
    ensures
        fields(m) == no_fields(),
{
    serde_json::Map::new()
}

/// `serde_json::Map::insert` with a string made by `serde_json::Value::from`: the
/// key has this text from now on, whatever it had before; no other entry changes.
#[verifier::external_body]
fn put_text(m: &mut serde_json::Map<String, serde_json::Value>, key: &str, value: &str)
    ensures
        fields(*final(m)) == fields(*old(m)).insert(key@, Scalar::Text(value@)),
{
    m.insert(key.to_owned(), serde_json::Value::from(value));
}

/// `serde_json::Map::insert` with a number made by `serde_json::Value::from`: the
/// key has this number from now on, whatever it had before; no other entry
/// changes.
#[verifier::external_body]
fn put_number(m: &mut serde_json::Map<String, serde_json::Value>, key: &str, value: usize)
    ensures
        fields(*final(m)) == fields(*old(m)).insert(key@, Scalar::Number(value as nat)),
{
    m.insert(key.to_owned(), serde_json::Value::from(value));
}

/// The `Display` form of `serde_json::Value::Object`: the compact JSON text, which
/// depends on the entries alone. How strings are escaped is left unsaid.
#[verifier::external_body]
fn render(m: serde_json::Map<String, serde_json::Value>) -> (s: String)
    ensures
        s@ == object_text(fields(m)),
{
    serde_json::Value::Object(m).to_string()
}

/// What is known of a generation and its watchers.
pub struct Live {
    /// Whether events can be sent at all.
    pub armed: bool,
    pub clients: usize,
    pub phase: String,
    pub step: usize,
    /// The token that the next step starts from.
    pub pending_token: Option<u32>,
    pub pending_text: String,
}

impl Live {
    /// No channel, no watcher, nothing begun.
    pub fn new() -> (l: Live)
        ensures
            !l.armed,
            l.clients == 0,
            l.phase@ == Seq::<char>::empty(),
            l.step == 0,
            l.pending_token is None,
            l.pending_text@ == Seq::<char>::empty(),
    {
        Live {
            armed: false,
            clients: 0,
            phase: String::new(),
            step: 0,
            pending_token: None,
            pending_text: String::new(),
        }
    }
}

/// There is a channel from now on.
pub fn init(l: &mut Live)
    ensures
        *final(l) == (Live { armed: true, ..*old(l) }),
{
    l.armed = true;
}

/// Whether values are captured: there is a channel and someone watches.
pub fn enabled(l: &Live) -> (r: bool)
    ensures
        r == (l.armed && l.clients > 0),
{
    l.armed && l.clients > 0
}

/// A watcher has come.
pub fn subscribe(l: &mut Live)
    requires
        old(l).armed,
        old(l).clients < usize::MAX,
    ensures
        *final(l) == (Live { clients: (old(l).clients + 1) as usize, ..*old(l) }),
{
    l.clients = l.clients + 1;
}

/// A watcher has gone.
pub fn detach_client(l: &mut Live)
    ensures
        *final(l) == (Live {
            clients: (if old(l).clients > 0 {
                old(l).clients - 1
            } else {
                0
            }) as usize,
            ..*old(l)
        }),
{
    l.clients = l.clients.saturating_sub(1);
}

/// The entries of the event that opens a phase.
pub open spec fn phase_fields(kind: Seq<char>) -> Map<Seq<char>, Scalar> {
    no_fields().insert("type"@, Scalar::Text("phase"@)).insert(
        "kind"@,
        Scalar::Text(kind),
    ).insert("index"@, Scalar::Number(0))
}

/// Opens a phase and counts its steps from the start. The event is to be sent, if
/// there is a channel.
pub fn begin_phase(l: &mut Live, kind: &str) -> (r: Option<String>)
    ensures
        final(l).phase@ == kind@,
        final(l).step == 0,
        final(l).armed == old(l).armed,
        final(l).clients == old(l).clients,
        final(l).pending_token == old(l).pending_token,
        final(l).pending_text == old(l).pending_text,
        r is Some == old(l).armed,
        r matches Some(s) ==> s@ == object_text(phase_fields(kind@)),
{
    l.phase = kind.to_owned();
    l.step = 0;
    if !l.armed {
        return None;
    }
    let mut m: serde_json::Map<String, serde_json::Value> = empty_object();
    put_text(&mut m, "type", "phase");
    put_text(&mut m, "kind", kind);
    put_number(&mut m, "index", 0);
    Some(render(m))
}

/// A step begins.
pub fn begin_step(l: &mut Live)
    requires
        old(l).step < usize::MAX,
    ensures
        *final(l) == (Live { step: (old(l).step + 1) as usize, ..*old(l) }),
{
    l.step = l.step + 1;
}

/// Remembers the token that the next step starts from.
pub fn set_token(l: &mut Live, id: u32, text: &str)
    ensures
        final(l).pending_token == Some(id),
        final(l).pending_text@ == text@,
        final(l).armed == old(l).armed,
        final(l).clients == old(l).clients,
        final(l).phase == old(l).phase,
        final(l).step == old(l).step,
{
    l.pending_token = Some(id);
    l.pending_text = text.to_owned();
}

/// What the event at the end of a step tells, apart from its logits.
pub struct StepEvent {
    pub phase: String,
    pub step: usize,
    pub token: Option<u32>,
    pub text: String,
}

/// Ends a step: hands out what its event tells and forgets the token.
pub fn attach_step(l: &mut Live) -> (r: StepEvent)
    ensures
        r.phase@ == old(l).phase@,
        r.step == old(l).step,
        r.token == old(l).pending_token,
        r.text@ == old(l).pending_text@,
        final(l).pending_token is None,
        final(l).pending_text@ == Seq::<char>::empty(),
        final(l).armed == old(l).armed,
        final(l).clients == old(l).clients,
        final(l).phase == old(l).phase,
        final(l).step == old(l).step,
{
    let r: StepEvent = StepEvent {
        phase: l.phase.clone(),
        step: l.step,
        token: l.pending_token,
        text: l.pending_text.clone(),
    };
    l.pending_token = None;
    l.pending_text = String::new();
    r
}

/// The entries of the event that ends a generation.
pub open spec fn finish_fields(reason: Seq<char>, tokens: nat, text: Seq<char>) -> Map<
    Seq<char>,
    Scalar,
> {
    no_fields().insert("type"@, Scalar::Text("finish"@)).insert(
        "reason"@,
        Scalar::Text(reason),
    ).insert("tokens"@, Scalar::Number(tokens)).insert("text"@, Scalar::Text(text))
}

/// The event that ends a generation, to be sent if there is a channel.
pub fn finish(l: &Live, reason: &str, tokens: usize, text: &str) -> (r: Option<String>)
    ensures
        r is Some == l.armed,
        r matches Some(s) ==> s@ == object_text(finish_fields(reason@, tokens as nat, text@)),
{
    if !l.armed {
        return None;
    }
    let mut m: serde_json::Map<String, serde_json::Value> = empty_object();
    put_text(&mut m, "type", "finish");
    put_text(&mut m, "reason", reason);
    put_number(&mut m, "tokens", tokens);
    put_text(&mut m, "text", text);
    Some(render(m))
}

/// The entries of the event that greets a watcher.
pub open spec fn hello_fields(model: Seq<char>, prompt_tokens: nat) -> Map<Seq<char>, Scalar> {
    no_fields().insert("type"@, Scalar::Text("hello"@)).insert(
        "model"@,
        Scalar::Text(model),
    ).insert("prompt_tokens"@, Scalar::Number(prompt_tokens))
}

/// The event that greets a watcher.
pub fn hello(model: &str, prompt_tokens: usize) -> (s: String)
    ensures
        s@ == object_text(hello_fields(model@, prompt_tokens as nat)),
{
    let mut m: serde_json::Map<String, serde_json::Value> = empty_object();
    put_text(&mut m, "type", "hello");
    put_text(&mut m, "model", model);
    put_number(&mut m, "prompt_tokens", prompt_tokens);
    render(m)
}

/// What a message holds: its type, and each value under its own name.
pub proof fn law_values_stand_under_their_names(
    kind: Seq<char>,
    reason: Seq<char>,
    tokens: nat,
    text: Seq<char>,
    model: Seq<char>,
)
    ensures
        ({
            let p = phase_fields(kind);
            let f = finish_fields(reason, tokens, text);
            let h = hello_fields(model, tokens);
            &&& p.dom() == set!["type"@, "kind"@, "index"@]
            &&& p["type"@] == Scalar::Text("phase"@)
            &&& p["kind"@] == Scalar::Text(kind)
            &&& p["index"@] == Scalar::Number(0)
            &&& f.dom() == set!["type"@, "reason"@, "tokens"@, "text"@]
            &&& f["type"@] == Scalar::Text("finish"@)
            &&& f["reason"@] == Scalar::Text(reason)
            &&& f["tokens"@] == Scalar::Number(tokens)
            &&& f["text"@] == Scalar::Text(text)
            &&& h.dom() == set!["type"@, "model"@, "prompt_tokens"@]
            &&& h["type"@] == Scalar::Text("hello"@)
            &&& h["model"@] == Scalar::Text(model)
            &&& h["prompt_tokens"@] == Scalar::Number(tokens)
        }),
{
    reveal_strlit("type");
    reveal_strlit("kind");
    reveal_strlit("index");
    reveal_strlit("reason");
    reveal_strlit("tokens");
    reveal_strlit("text");
    reveal_strlit("model");
    reveal_strlit("prompt_tokens");
    assert("type"@.len() == 4 && "kind"@.len() == 4 && "text"@.len() == 4);
    assert("type"@[1] == 'y' && "kind"@[1] == 'i' && "text"@[1] == 'e');
    assert("index"@.len() == 5 && "model"@.len() == 5 && "reason"@.len() == 6);
    assert("reason"@[0] == 'r' && "tokens"@[0] == 't');
    assert("tokens"@.len() == 6 && "prompt_tokens"@.len() == 13);
    let p = phase_fields(kind);
    let f = finish_fields(reason, tokens, text);
    let h = hello_fields(model, tokens);
    assert(p.dom() =~= set!["type"@, "kind"@, "index"@]);
    assert(f.dom() =~= set!["type"@, "reason"@, "tokens"@, "text"@]);
    assert(h.dom() =~= set!["type"@, "model"@, "prompt_tokens"@]);
}

} // verus!
