//! The conversation loop: what is read, what a line means, when it is over.
use crate::models::SpecialTokens;
use crate::text::same;
use vstd::prelude::*;

use super::words::{
    begins_with, first_word, first_word_spec, starts_with, strip_line_end, trim, trimmed,
    without_line_end,
};

verus! {

/// What reading a line comes to.
pub enum LineStep {
    /// Another line belongs to the input.
    More,
    /// The input is complete; `None` at the end of all input.
    Done(Option<String>),
}

/// What reading a line comes to, and the lines kept so far.
pub open spec fn line_step_spec(multiline: bool, kept: Seq<char>, line: Option<Seq<char>>) -> (
    Seq<char>,
    Option<Option<Seq<char>>>,
) {
    match line {
        None => (
            kept,
            Some(
                if kept.len() == 0 {
                    None
                } else {
                    Some(kept)
                },
            ),
        ),
        Some(raw) => {
            let l = without_line_end(raw);
            if !multiline {
                (kept, Some(Some(l)))
            } else if l.len() == 0 {
                (kept, Some(Some(kept)))
            } else if kept.len() == 0 {
                (l, None)
            } else {
                (kept + "\n"@ + l, None)
            }
        },
    }
}

/// What a step comes to, as a value.
pub open spec fn step_view(s: LineStep) -> Option<Option<Seq<char>>> {
    match s {
        LineStep::More => None,
        LineStep::Done(None) => Some(None),
        LineStep::Done(Some(t)) => Some(Some(t@)),
    }
}

fn is_empty(s: &String) -> (r: bool)
    ensures
        r == (s@.len() == 0),
{
    proof {
        reveal_strlit("");
    }
    let r: bool = same(s.as_str(), "");
    assert(r <==> s@ =~= ""@);
    r
}

/// Takes the next line of input, `None` at the end of it. An input is one line,
/// or, if several lines were asked for, everything before an empty line.
pub fn read_user_input(multiline: bool, kept: &mut String, line: Option<&str>) -> (r: LineStep)
    ensures
        ({
            let (k, s) = line_step_spec(
                multiline,
                old(kept)@,
                match line {
                    Some(l) => Some(l@),
                    None => None,
                },
            );
            final(kept)@ == k && step_view(r) == s
        }),
{
    match line {
        None => {
            if is_empty(kept) {
                LineStep::Done(None)
            } else {
                LineStep::Done(Some(kept.clone()))
            }
        },
        Some(raw) => {
            let l: String = strip_line_end(raw);
            if !multiline {
                return LineStep::Done(Some(l));
            }
            if is_empty(&l) {
                return LineStep::Done(Some(kept.clone()));
            }
            if !is_empty(kept) {
                kept.append("\n");
                kept.append(l.as_str());
            } else {
                *kept = l;
            }
            LineStep::More
        },
    }
}

/// What a conversation does next.
pub enum ReplAction {
    /// Show the prompt and read input.
    Read,
    Help,
    /// Forget the conversation.
    Clear,
    /// Generate the last reply again.
    Regen,
    /// No such command.
    Unknown(String),
    /// Answer this.
    Turn(String),
    /// The conversation is over.
    End,
}

/// What a conversation does next, as a value.
pub ghost enum ActionView {
    Read,
    Help,
    Clear,
    Regen,
    Unknown(Seq<char>),
    Turn(Seq<char>),
    End,
}

impl View for ReplAction {
    type V = ActionView;

    open spec fn view(&self) -> ActionView {
        match self {
            ReplAction::Read => ActionView::Read,
            ReplAction::Help => ActionView::Help,
            ReplAction::Clear => ActionView::Clear,
            ReplAction::Regen => ActionView::Regen,
            ReplAction::Unknown(s) => ActionView::Unknown(s@),
            ReplAction::Turn(s) => ActionView::Turn(s@),
            ReplAction::End => ActionView::End,
        }
    }
}

/// What an input asks for. One that begins with a slash is a command.
pub open spec fn meaning(input: Seq<char>) -> ActionView {
    if !begins_with(input, "/"@) {
        ActionView::Turn(input)
    } else {
        let cmd = first_word_spec(input);
        if cmd == "/exit"@ || cmd == "/quit"@ {
            ActionView::End
        } else if cmd == "/help"@ {
            ActionView::Help
        } else if cmd == "/clear"@ {
            ActionView::Clear
        } else if cmd == "/regen"@ {
            ActionView::Regen
        } else {
            ActionView::Unknown(cmd)
        }
    }
}

/// What an input asks for.
pub fn interpret(input: &str) -> (r: ReplAction)
    ensures
        r@ == meaning(input@),
{
    if !starts_with(input, "/") {
        return ReplAction::Turn(input.to_owned());
    }
    let cmd: String = first_word(input);
    let c: &str = cmd.as_str();
    if same(c, "/exit") || same(c, "/quit") {
        ReplAction::End
    } else if same(c, "/help") {
        ReplAction::Help
    } else if same(c, "/clear") {
        ReplAction::Clear
    } else if same(c, "/regen") {
        ReplAction::Regen
    } else {
        ReplAction::Unknown(cmd)
    }
}

/// A conversation.
pub struct Repl {
    /// It ends after one turn.
    pub single_turn: bool,
    /// Turns that were answered.
    pub turn: usize,
}

/// What just happened in a conversation.
pub enum ReplEvent {
    /// It begins, with this input if one was given.
    Start(Option<String>),
    /// Input was read; `None` at the end of it.
    Input(Option<String>),
    /// Help was shown, the conversation was forgotten, or a command was refused.
    Shown,
    /// A reply was generated, or could not be.
    Answered(bool),
}

/// What a conversation does after an event, and how many turns were answered
/// then.
pub open spec fn repl_step(r: Repl, e: ReplEvent) -> (int, ActionView) {
    match e {
        ReplEvent::Start(Some(s)) => (r.turn as int, meaning(s@)),
        ReplEvent::Start(None) => (r.turn as int, ActionView::Read),
        ReplEvent::Input(None) => (r.turn as int, ActionView::End),
        ReplEvent::Input(Some(s)) => {
            let t = trimmed(s@);
            (
                r.turn as int,
                if t.len() == 0 {
                    ActionView::Read
                } else {
                    meaning(t)
                },
            )
        },
        ReplEvent::Shown => (r.turn as int, ActionView::Read),
        ReplEvent::Answered(ok) => (
            if ok {
                r.turn + 1
            } else {
                r.turn as int
            },
            if r.single_turn {
                ActionView::End
            } else {
                ActionView::Read
            },
        ),
    }
}

impl Repl {
    /// A conversation without turns yet.
    pub fn new(single_turn: bool) -> (r: Repl)
        ensures
            r.single_turn == single_turn,
            r.turn == 0,
    {
        Repl { single_turn, turn: 0 }
    }

    /// What the conversation does after an event.
    pub fn next(&mut self, e: &ReplEvent) -> (a: ReplAction)
        requires
            old(self).turn < usize::MAX,
        ensures
            a@ == repl_step(*old(self), *e).1,
            final(self).turn == repl_step(*old(self), *e).0,
            final(self).single_turn == old(self).single_turn,
    {
        match e {
            ReplEvent::Start(Some(s)) => interpret(s.as_str()),
            ReplEvent::Start(None) => ReplAction::Read,
            ReplEvent::Input(None) => ReplAction::End,
            ReplEvent::Input(Some(s)) => {
                let t: String = trim(s.as_str());
                if is_empty(&t) {
                    ReplAction::Read
                } else {
                    interpret(t.as_str())
                }
            },
            ReplEvent::Shown => ReplAction::Read,
            ReplEvent::Answered(ok) => {
                if *ok {
                    self.turn = self.turn + 1;
                }
                if self.single_turn {
                    ReplAction::End
                } else {
                    ReplAction::Read
                }
            },
        }
    }
}

/// A conversation of a single turn is over after its first answer, whether that
/// succeeded or not; any other goes on.
pub proof fn law_single_turn_ends(r: Repl, ok: bool)
    ensures
        repl_step(r, ReplEvent::Answered(ok)).1 is End <==> r.single_turn,
{
}

/// The end of the input ends a conversation, and so do its two commands.
pub proof fn law_ways_out(r: Repl, s: String)
    ensures
        repl_step(r, ReplEvent::Input(None)).1 is End,
        trimmed(s@) == "/exit"@ || trimmed(s@) == "/quit"@ ==> repl_step(
            r,
            ReplEvent::Input(Some(s)),
        ).1 is End,
{
    reveal_strlit("/exit");
    reveal_strlit("/quit");
    reveal_strlit("/");
    let t = trimmed(s@);
    if t == "/exit"@ || t == "/quit"@ {
        assert(t.take(1) =~= "/"@);
        lemma_solid_word(t);
    }
}

proof fn lemma_solid_word(s: Seq<char>)
    requires
        forall|i: int| 0 <= i < s.len() ==> !super::words::is_space(#[trigger] s[i]),
    ensures
        first_word_spec(s) == s,
    decreases s.len(),
{
    if s.len() > 0 {
        let rest = s.drop_first();
        assert forall|i: int| 0 <= i < rest.len() implies !super::words::is_space(
            #[trigger] rest[i],
        ) by {
            assert(rest[i] == s[i + 1]);
        }
        lemma_solid_word(rest);
        assert(!super::words::is_space(s[0]));
        if rest.len() > 0 {
            assert(!super::words::is_space(rest[0]));
        }
        assert(seq![s[0]] + rest =~= s);
    } else {
        assert(first_word_spec(s) =~= s);
    }
}

/// Whether a token ends a generation.
pub fn is_stop_token(id: u32, special: &SpecialTokens) -> (r: bool)
    ensures
        r == (id == special.eos || special.im_end == Some(id)),
{
    id == special.eos || match special.im_end {
        Some(t) => t == id,
        None => false,
    }
}

/// The tokens that end a generation.
pub fn end_tokens(special: &SpecialTokens) -> (r: Vec<u32>)
    ensures
        r@ == (match special.im_end {
            Some(t) => seq![special.eos, t],
            None => seq![special.eos],
        }),
{
    let mut r: Vec<u32> = Vec::new();
    r.push(special.eos);
    if let Some(t) = special.im_end {
        r.push(t);
    }
    r
}

/// The token that ends a turn.
pub fn turn_end(special: &SpecialTokens) -> (r: u32)
    ensures
        r == (match special.im_end {
            Some(t) => t,
            None => special.eos,
        }),
{
    match special.im_end {
        Some(t) => t,
        None => special.eos,
    }
}

/// Lines of one message are kept until an empty one or the end of the input; each is put
/// behind a line break. Without them every line is a message.
pub proof fn law_lines_make_a_message(kept: Seq<char>, raw: Seq<char>)
    ensures
        line_step_spec(false, kept, Some(raw)) == (kept, Some(Some(without_line_end(raw)))),
        without_line_end(raw).len() == 0 ==> line_step_spec(true, kept, Some(raw)) == (
            kept,
            Some(Some(kept)),
        ),
        without_line_end(raw).len() > 0 ==> line_step_spec(true, kept, Some(raw)).1 is None,
        without_line_end(raw).len() > 0 && kept.len() == 0 ==> line_step_spec(
            true,
            kept,
            Some(raw),
        ).0 == without_line_end(raw),
        without_line_end(raw).len() > 0 && kept.len() > 0 ==> line_step_spec(
            true,
            kept,
            Some(raw),
        ).0 == kept.push('\n') + without_line_end(raw),
        forall|m: bool|
            kept.len() == 0 ==> (#[trigger] line_step_spec(m, kept, None)).1 == Some(
                None::<Seq<char>>,
            ),
        forall|m: bool|
            kept.len() > 0 ==> (#[trigger] line_step_spec(m, kept, None)).1 == Some(Some(kept)),
{
    reveal_strlit("\n");
    assert(kept + "\n"@ =~= kept.push('\n'));
}

/// What an input means: a text without a slash in front is a message; behind a slash the
/// first word is a command.
pub proof fn law_what_an_input_means(input: Seq<char>)
    ensures
        input.len() == 0 || input[0] != '/' ==> meaning(input) == ActionView::Turn(input),
        input.len() > 0 && input[0] == '/' ==> {
            let cmd = first_word_spec(input);
            &&& cmd == "/exit"@ || cmd == "/quit"@ ==> meaning(input) is End
            &&& cmd == "/help"@ ==> meaning(input) is Help
            &&& cmd == "/clear"@ ==> meaning(input) is Clear
            &&& cmd == "/regen"@ ==> meaning(input) is Regen
            &&& cmd != "/exit"@ && cmd != "/quit"@ && cmd != "/help"@ && cmd != "/clear"@ && cmd
                != "/regen"@ ==> meaning(input) == ActionView::Unknown(cmd)
        },
{
    reveal_strlit("/");
    reveal_strlit("/exit");
    reveal_strlit("/quit");
    reveal_strlit("/help");
    reveal_strlit("/clear");
    reveal_strlit("/regen");
    if input.len() > 0 {
        assert(input.take(1) =~= seq![input[0]]);
        assert("/"@ =~= seq!['/']);
        assert(input.take(1)[0] == input[0]);
    }
    assert("/exit"@[1] == 'e' && "/quit"@[1] == 'q' && "/help"@[1] == 'h' && "/clear"@[1] == 'c'
        && "/regen"@[1] == 'r');
}

/// Only an answer counts as a turn.
pub proof fn law_answers_are_counted(r: Repl, e: ReplEvent)
    ensures
        e == ReplEvent::Answered(true) ==> repl_step(r, e).0 == r.turn + 1,
        e != ReplEvent::Answered(true) ==> repl_step(r, e).0 == r.turn,
{
}

} // verus!
