//! What a program run does, by its positional arguments.
use crate::text::same;
use vstd::prelude::*;

use super::args::Options;
use super::words::{begins_with, join_from, joined, starts_with};

verus! {

/// What a program run does.
pub enum Command {
    /// Nothing was asked: show how the program is used.
    Usage,
    /// Fetch a model.
    Download(String),
    /// `download` needs an argument.
    DownloadUsage,
    /// `download` with this source needs a model.
    SourceUsage(String),
    /// `download` takes nothing behind a complete name.
    UriUsage,
    /// `download` does not know this source.
    UnknownSource(String),
    /// List the models at hand.
    List,
    /// Describe a model.
    Info(String),
    /// `info` needs a model.
    InfoUsage,
    /// A conversation cannot do without the chat template.
    Conflict,
    /// Run a model.
    Run {
        model: String,
        /// The model has to be found first, and is then reported.
        sought: bool,
        /// The prompt, where one was given.
        prompt: Option<String>,
    },
}

/// What a program run does, as a value.
pub ghost enum CommandView {
    Usage,
    Download(Seq<char>),
    DownloadUsage,
    SourceUsage(Seq<char>),
    UriUsage,
    UnknownSource(Seq<char>),
    List,
    Info(Seq<char>),
    InfoUsage,
    Conflict,
    Run { model: Seq<char>, sought: bool, prompt: Option<Seq<char>> },
}

impl View for Command {
    type V = CommandView;

    open spec fn view(&self) -> CommandView {
        match self {
            Command::Usage => CommandView::Usage,
            Command::Download(s) => CommandView::Download(s@),
            Command::DownloadUsage => CommandView::DownloadUsage,
            Command::SourceUsage(s) => CommandView::SourceUsage(s@),
            Command::UriUsage => CommandView::UriUsage,
            Command::UnknownSource(s) => CommandView::UnknownSource(s@),
            Command::List => CommandView::List,
            Command::Info(s) => CommandView::Info(s@),
            Command::InfoUsage => CommandView::InfoUsage,
            Command::Conflict => CommandView::Conflict,
            Command::Run { model, sought, prompt } => CommandView::Run {
                model: model@,
                sought: *sought,
                prompt: match prompt {
                    Some(p) => Some(p@),
                    None => None,
                },
            },
        }
    }
}

/// What `download` does.
pub open spec fn download_spec(p: Seq<String>) -> CommandView {
    if p.len() < 2 {
        CommandView::DownloadUsage
    } else {
        let a = p[1]@;
        if a == "hf"@ || a == "ollama"@ {
            if p.len() < 3 {
                CommandView::SourceUsage(a)
            } else {
                CommandView::Download(a + ":"@ + joined(p.skip(2), ":"@))
            }
        } else if begins_with(a, "hf:"@) || begins_with(a, "ollama:"@) {
            if p.len() != 2 {
                CommandView::UriUsage
            } else {
                CommandView::Download(a)
            }
        } else {
            CommandView::UnknownSource(a)
        }
    }
}

/// Whether a model is named otherwise than by its path.
pub open spec fn sought_spec(m: Seq<char>) -> bool {
    ||| begins_with(m, "hf:"@)
    ||| begins_with(m, "ollama:"@)
    ||| !begins_with(m, "/"@) && !begins_with(m, "."@) && !begins_with(m, "~"@)
}

/// What a program run does.
pub open spec fn command_spec(o: Options) -> CommandView {
    let p = o.positional@;
    if p.len() == 0 {
        CommandView::Usage
    } else if p[0]@ == "download"@ {
        download_spec(p)
    } else if p[0]@ == "list"@ {
        CommandView::List
    } else if p[0]@ == "info"@ {
        if p.len() < 2 {
            CommandView::InfoUsage
        } else {
            CommandView::Info(p[1]@)
        }
    } else if o.conversation && o.no_template {
        CommandView::Conflict
    } else {
        CommandView::Run {
            model: p[0]@,
            sought: sought_spec(p[0]@),
            prompt: if p.len() > 1 {
                Some(joined(p.skip(1), " "@))
            } else {
                None
            },
        }
    }
}

fn download(p: &Vec<String>) -> (r: Command)
    ensures
        r@ == download_spec(p@),
{
    if p.len() < 2 {
        return Command::DownloadUsage;
    }
    let a: &str = p[1].as_str();
    if same(a, "hf") || same(a, "ollama") {
        if p.len() < 3 {
            return Command::SourceUsage(a.to_owned());
        }
        let mut uri: String = a.to_owned();
        uri.append(":");
        let rest: String = join_from(p, 2, ":");
        uri.append(rest.as_str());
        Command::Download(uri)
    } else if starts_with(a, "hf:") || starts_with(a, "ollama:") {
        if p.len() != 2 {
            return Command::UriUsage;
        }
        Command::Download(a.to_owned())
    } else {
        Command::UnknownSource(a.to_owned())
    }
}

/// What a program run does.
pub fn command(o: &Options) -> (r: Command)
    ensures
        r@ == command_spec(*o),
{
    let p: &Vec<String> = &o.positional;
    if p.len() == 0 {
        return Command::Usage;
    }
    let first: &str = p[0].as_str();
    if same(first, "download") {
        return download(p);
    }
    if same(first, "list") {
        return Command::List;
    }
    if same(first, "info") {
        if p.len() < 2 {
            return Command::InfoUsage;
        }
        return Command::Info(p[1].clone());
    }
    if o.conversation && o.no_template {
        return Command::Conflict;
    }
    let sought: bool = starts_with(first, "hf:") || starts_with(first, "ollama:") || (
    !starts_with(first, "/") && !starts_with(first, ".") && !starts_with(first, "~"));
    let prompt: Option<String> = if p.len() > 1 {
        Some(join_from(p, 1, " "))
    } else {
        None
    };
    Command::Run { model: first.to_owned(), sought, prompt }
}

/// Why a server cannot start with these options.
pub open spec fn server_refusal_spec(o: Options) -> Option<Seq<char>> {
    if o.n_slots == 0 {
        Some("--n-slots must be >= 1"@)
    } else if o.params.n_ctx == 0 {
        Some("--n-ctx must be >= 1"@)
    } else {
        None
    }
}

/// Why a server cannot start with these options; `None` if it can.
pub fn server_refusal(o: &Options) -> (r: Option<&'static str>)
    ensures
        match server_refusal_spec(*o) {
            Some(m) => r matches Some(s) && s@ == m,
            None => r is None,
        },
{
    if o.n_slots == 0 {
        Some("--n-slots must be >= 1")
    } else if o.params.n_ctx == 0 {
        Some("--n-ctx must be >= 1")
    } else {
        None
    }
}

/// What a program run does, by its first argument; anything that is no command is a model,
/// and the rest the prompt.
pub proof fn law_first_argument_decides(o: Options)
    ensures
        ({
            let p = o.positional@;
            let c = command_spec(o);
            let word = p[0]@;
            &&& p.len() == 0 ==> c is Usage
            &&& p.len() > 0 && word == "list"@ ==> c is List
            &&& p.len() == 1 && word == "info"@ ==> c is InfoUsage
            &&& p.len() > 1 && word == "info"@ ==> c == CommandView::Info(p[1]@)
            &&& p.len() == 1 && word == "download"@ ==> c is DownloadUsage
            &&& p.len() > 0 && word != "list"@ && word != "info"@ && word != "download"@ ==> {
                &&& o.conversation && o.no_template ==> c is Conflict
                &&& !(o.conversation && o.no_template) ==> (c matches CommandView::Run {
                    model,
                    sought,
                    prompt,
                } && model == word && (prompt is Some <==> p.len() > 1) && (prompt is Some
                    ==> prompt->0 == joined(p.skip(1), " "@)))
            }
        }),
{
    reveal_strlit("list");
    reveal_strlit("info");
    reveal_strlit("download");
    assert("list"@[0] == 'l' && "info"@[0] == 'i' && "download"@.len() == 8 && "list"@.len() == 4);
}

/// Where a model comes from: a path starts with a slash, a dot or a tilde, everything else
/// is sought, and so is what names its source.
pub proof fn law_paths_are_not_sought(m: Seq<char>)
    requires
        m.len() > 0,
    ensures
        m[0] == '/' || m[0] == '.' || m[0] == '~' ==> !sought_spec(m),
        m[0] != '/' && m[0] != '.' && m[0] != '~' ==> sought_spec(m),
{
    reveal_strlit("hf:");
    reveal_strlit("ollama:");
    reveal_strlit("/");
    reveal_strlit(".");
    reveal_strlit("~");
    assert(m.take(1) =~= seq![m[0]]);
    assert("/"@ =~= seq!['/'] && "."@ =~= seq!['.'] && "~"@ =~= seq!['~']);
    assert("hf:"@[0] == 'h' && "ollama:"@[0] == 'o');
    if begins_with(m, "hf:"@) {
        assert(m.take(3)[0] == m[0]);
    }
    if begins_with(m, "ollama:"@) {
        assert(m.take(7)[0] == m[0]);
    }
    assert(m.take(1)[0] == m[0]);
    assert(seq!['/'][0] == '/' && seq!['.'][0] == '.' && seq!['~'][0] == '~');
}

/// What a download is of: a source by name with the rest behind colons, or a whole address
/// by itself.
pub proof fn law_what_is_downloaded(p: Seq<String>)
    requires
        p.len() >= 2,
    ensures
        ({
            let a = p[1]@;
            let c = download_spec(p);
            &&& (a == "hf"@ || a == "ollama"@) && p.len() == 2 ==> c == CommandView::SourceUsage(a)
            &&& (a == "hf"@ || a == "ollama"@) && p.len() == 3 ==> c == CommandView::Download(
                a + ":"@ + p[2]@,
            )
            &&& a != "hf"@ && a != "ollama"@ && (begins_with(a, "hf:"@) || begins_with(
                a,
                "ollama:"@,
            )) && p.len() == 2 ==> c == CommandView::Download(a)
            &&& a != "hf"@ && a != "ollama"@ && (begins_with(a, "hf:"@) || begins_with(
                a,
                "ollama:"@,
            )) && p.len() > 2 ==> c is UriUsage
            &&& a != "hf"@ && a != "ollama"@ && !begins_with(a, "hf:"@) && !begins_with(
                a,
                "ollama:"@,
            ) ==> c == CommandView::UnknownSource(a)
        }),
{
    if p.len() == 3 {
        assert(p.skip(2)[0] == p[2]);
    }
}

/// A server needs a slot and a context.
pub proof fn law_servers_need_room(o: Options)
    ensures
        server_refusal_spec(o) is None <==> o.n_slots >= 1 && o.params.n_ctx >= 1,
        o.n_slots == 0 ==> server_refusal_spec(o) == Some("--n-slots must be >= 1"@),
        o.n_slots >= 1 && o.params.n_ctx == 0 ==> server_refusal_spec(o) == Some(
            "--n-ctx must be >= 1"@,
        ),
{
}

} // verus!
