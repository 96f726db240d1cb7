//! The closed registry of remote commands and the shape of their results.

use crate::json::{lemma_items_view, Json, JsonView};
use vstd::prelude::*;

verus! {

/// A command that the agent knows.
#[derive(Clone, Copy, Debug, PartialEq, Eq, Structural)]
pub enum CommandKind {
    /// Answers "pong": a liveness check.
    Ping,
    /// Sounds the device's beeper.
    Beep,
    /// Restarts the device.
    Reboot,
}

/// The command registered under `id`, if any.
pub open spec fn registered(id: Seq<char>) -> Option<CommandKind> {
    if id == "ping"@ {
        Some(CommandKind::Ping)
    } else if id == "beep"@ {
        Some(CommandKind::Beep)
    } else if id == "reboot"@ {
        Some(CommandKind::Reboot)
    } else {
        None
    }
}

/// Looks `id` up in the registry.
pub fn lookup(id: &str) -> (r: Option<CommandKind>)
    ensures
        r == registered(id@),
{
    let id = id.to_owned();
    if id == String::from_str("ping") {
        Some(CommandKind::Ping)
    } else if id == String::from_str("beep") {
        Some(CommandKind::Beep)
    } else if id == String::from_str("reboot") {
        Some(CommandKind::Reboot)
    } else {
        None
    }
}

/// A remote command request: the command's identifier and its parameters.
#[derive(Debug)]
pub struct Command {
    pub id: String,
    pub parameters: Json,
}

/// The outcome of a command: whether it succeeded, with its output or the
/// detail of its failure.
#[derive(Debug)]
pub struct CommandResult {
    pub success: bool,
    pub output: String,
}

/// The detail given for an identifier that no command is registered under.
pub open spec fn unknown_text(id: Seq<char>) -> Seq<char> {
    "unknown command: "@ + id
}

/// The text that a ping answers with.
pub open spec fn pong_text() -> Seq<char> {
    "pong"@
}

impl CommandResult {
    /// Wraps what a handler gave: its output where it succeeded, its error
    /// detail where it failed.
    pub fn from_outcome(outcome: Result<String, String>) -> (r: CommandResult)
        ensures
            r.success == outcome is Ok,
            match outcome {
                Ok(o) => r.output@ == o@,
                Err(e) => r.output@ == e@,
            },
    {
        match outcome {
            Ok(output) => CommandResult { success: true, output },
            Err(output) => CommandResult { success: false, output },
        }
    }

    /// The failure reported for an identifier that is not registered.
    pub fn unknown(id: &str) -> (r: CommandResult)
        ensures
            !r.success,
            r.output@ == unknown_text(id@),
    {
        let output = String::from_str("unknown command: ").concat(id);
        CommandResult { success: false, output }
    }
}

/// What to do with a request: answer it at once, or run a command's handler
/// and wrap what it gives with `CommandResult::from_outcome`.
#[derive(Debug)]
pub enum Action {
    Reply(CommandResult),
    Run(CommandKind),
}

/// The arguments that parameters hand to a handler: none for `null`, the
/// strings of an array of strings, and `None` for anything else.
pub open spec fn arguments_of(parameters: JsonView) -> Option<Seq<Seq<char>>> {
    match parameters {
        JsonView::Null => Some(Seq::empty()),
        JsonView::Array(items) => if forall|i: int| 0 <= i < items.len() ==> #[trigger] items[i] is Str {
            Some(Seq::new(items.len(), |i: int| items[i]->Str_0))
        } else {
            None
        },
        _ => None,
    }
}

impl Command {
    /// The arguments that this request's parameters hand to its handler.
    pub fn arguments(&self) -> (r: Option<Vec<String>>)
        ensures
            match arguments_of(self.parameters@) {
                Some(args) => r matches Some(v) && v@.len() == args.len() && forall|i: int|
                    0 <= i < args.len() ==> #[trigger] v@[i]@ == args[i],
                None => r is None,
            },
    {
        match &self.parameters {
            Json::Null => Some(Vec::new()),
            Json::Array(items) => {
                proof {
                    lemma_items_view(items@, items@.len());
                }
                let ghost iv = crate::json::items_view(items@, items@.len());
                assert(self.parameters == Json::Array(*items));
                assert(self.parameters@ == JsonView::Array(iv));
                let mut args: Vec<String> = Vec::new();
                let mut i: usize = 0;
                while i < items.len()
                    invariant
                        self.parameters@ == JsonView::Array(iv),
                        iv.len() == items@.len(),
                        forall|j: int| 0 <= j < items@.len() ==> #[trigger] iv[j] == items@[j]@,
                        i <= items@.len(),
                        args@.len() == i,
                        forall|j: int| 0 <= j < i ==> #[trigger] iv[j] is Str,
                        forall|j: int| 0 <= j < i ==> #[trigger] args@[j]@ == iv[j]->Str_0,
                    decreases items@.len() - i,
                {
                    match &items[i] {
                        Json::Str(s) => {
                            args.push(s.clone());
                        },
                        _ => {
                            assert(!(iv[i as int] is Str));
                            assert(!(forall|j: int| 0 <= j < iv.len() ==> #[trigger] iv[j] is Str));
                            return None;
                        },
                    }
                    i = i + 1;
                }
                proof {
                    assert(self.parameters@ == JsonView::Array(iv));
                    let expected = Seq::new(iv.len(), |j: int| iv[j]->Str_0);
                    assert(forall|j: int| 0 <= j < args@.len() ==> #[trigger] args@[j]@ == expected[j]);
                }
                Some(args)
            },
            _ => None,
        }
    }

    /// Decides how to serve this request. An identifier that is not
    /// registered is answered with a failure that names it; a ping is
    /// answered at once; every other command is run once, by its handler.
    /// Nothing is kept between requests.
    pub fn dispatch(&self) -> (r: Action)
        ensures
            match registered(self.id@) {
                None => r matches Action::Reply(res) && !res.success && res.output@ == unknown_text(
                    self.id@,
                ),
                Some(CommandKind::Ping) => r matches Action::Reply(res) && res.success
                    && res.output@ == pong_text(),
                Some(k) => r == Action::Run(k),
            },
    {
        match lookup(self.id.as_str()) {
            None => Action::Reply(CommandResult::unknown(self.id.as_str())),
            Some(CommandKind::Ping) => Action::Reply(
                CommandResult { success: true, output: String::from_str("pong") },
            ),
            Some(k) => Action::Run(k),
        }
    }
}

} // verus!
