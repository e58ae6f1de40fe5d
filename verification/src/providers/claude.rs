//! Adapter for an agent CLI that streams JSON events, one per line.

use super::{OutputFormat, ProviderCapabilities, ResumeStrategy};
use crate::json::{json_text_at, text_at};
use crate::sandbox::{CommandView, SpawnCommand};
use crate::text::{is_text, opt_str, opt_text, own, texts};
use vstd::prelude::*;
use vstd::string::*;

verus! {

/// Scoped tool-allow rules so that an agent can notify the operator, message
/// peers and use shared memory without a prompt that it cannot answer.
pub const GRIM_CALLBACK_TOOLS: &'static str = "Bash(grim notify *),Bash(grim mail *),Bash(grim memory *)";

/// A provider whose output is a stream of JSON events.
#[derive(Debug)]
pub struct ClaudeProvider {
    pub binary: String,
}

/// What a line of output says of itself.
#[derive(Debug)]
pub struct ClaudeEvent {
    pub kind: Option<String>,
    pub result: Option<String>,
}

/// The session that an event opens, from its type and its session id.
pub open spec fn session_of(kind: Option<Seq<char>>, session_id: Option<Seq<char>>) -> Option<
    Seq<char>,
> {
    if kind == Some("system"@) {
        session_id
    } else {
        None
    }
}

/// The result that an event carries, from its type and its result.
pub open spec fn result_of(kind: Option<Seq<char>>, result: Option<Seq<char>>) -> Option<Seq<char>> {
    if kind == Some("result"@) {
        result
    } else {
        None
    }
}

/// The result of the last event that carries one.
pub open spec fn last_result(events: Seq<(Option<Seq<char>>, Option<Seq<char>>)>) -> Option<
    Seq<char>,
>
    decreases events.len(),
{
    if events.len() == 0 {
        None
    } else {
        match result_of(events.last().0, events.last().1) {
            Some(r) => Some(r),
            None => last_result(events.drop_last()),
        }
    }
}

/// What a list of events says.
pub open spec fn claude_events(events: Seq<ClaudeEvent>) -> Seq<
    (Option<Seq<char>>, Option<Seq<char>>),
> {
    events.map_values(|e: ClaudeEvent| (opt_text(e.kind), opt_text(e.result)))
}

/// What lines of output say.
pub open spec fn claude_lines(lines: Seq<Seq<char>>) -> Seq<(Option<Seq<char>>, Option<Seq<char>>)> {
    lines.map_values(
        |l: Seq<char>| (json_text_at(l, "/type"@), json_text_at(l, "/result"@)),
    )
}

/// The session that an event opens, from its type and its session id.
pub fn select_session(kind: &Option<String>, session_id: Option<String>) -> (r: Option<String>)
    ensures
        opt_text(r) == session_of(opt_text(*kind), opt_text(session_id)),
{
    if is_text(kind, "system") {
        session_id
    } else {
        None
    }
}

/// The result of the last event that carries one.
pub fn select_result(events: &Vec<ClaudeEvent>) -> (r: Option<String>)
    ensures
        opt_text(r) == last_result(claude_events(events@)),
{
    let ghost all = claude_events(events@);
    let mut n: usize = events.len();
    assert(all.take(all.len() as int) =~= all);
    while n > 0
        invariant
            n <= events@.len(),
            all == claude_events(events@),
            last_result(all) == last_result(all.take(n as int)),
        decreases n,
    {
        let e = &events[n - 1];
        proof {
            assert(all.take(n as int).last() == all[n - 1]);
            assert(all[n - 1] == (opt_text(e.kind), opt_text(e.result)));
            assert(all.take(n as int).drop_last() =~= all.take(n - 1));
        }
        if is_text(&e.kind, "result") {
            if let Some(r) = &e.result {
                return Some(r.clone());
            }
        }
        n = n - 1;
    }
    None
}

impl ClaudeProvider {
    /// The provider that runs `binary`.
    pub fn new(binary: String) -> (p: ClaudeProvider)
        ensures
            p.binary == binary,
    {
        ClaudeProvider { binary }
    }

    /// What the provider can do.
    pub fn capabilities(&self) -> (r: ProviderCapabilities)
        ensures
            r == (ProviderCapabilities {
                supports_resume: true,
                supports_model_selection: true,
                output_format: OutputFormat::StreamJson,
            }),
    {
        ProviderCapabilities {
            supports_resume: true,
            supports_model_selection: true,
            output_format: OutputFormat::StreamJson,
        }
    }

    /// How the provider takes up an earlier session.
    pub fn resume_strategy(&self) -> (r: ResumeStrategy)
        ensures
            r == ResumeStrategy::Native,
    {
        ResumeStrategy::Native
    }

    /// The process that works on a task.
    pub fn spawn(&self, task: &str, cwd: &str, model: Option<&str>) -> (c: SpawnCommand)
        ensures
            c@ == (CommandView {
                program: self.binary@,
                args: seq![
                    "--print"@,
                    "--output-format"@,
                    "stream-json"@,
                    "--verbose"@,
                    "--allowedTools"@,
                    "Bash(grim notify *),Bash(grim mail *),Bash(grim memory *)"@,
                    "-p"@,
                    task@,
                ] + model_args(opt_str(model)),
                env: seq![],
                cwd: Some(cwd@),
            }),
    {
        let mut c = SpawnCommand::new(self.binary.as_str());
        c.arg("--print");
        c.arg("--output-format");
        c.arg("stream-json");
        c.arg("--verbose");
        c.arg("--allowedTools");
        c.arg(GRIM_CALLBACK_TOOLS);
        c.arg("-p");
        c.arg(task);
        if let Some(m) = model {
            c.arg("--model");
            c.arg(m);
        }
        c.cwd = Some(own(cwd));
        assert(c@.args =~= seq![
            "--print"@,
            "--output-format"@,
            "stream-json"@,
            "--verbose"@,
            "--allowedTools"@,
            "Bash(grim notify *),Bash(grim mail *),Bash(grim memory *)"@,
            "-p"@,
            task@,
        ] + model_args(opt_str(model)));
        c
    }

    /// The process that goes on with a session.
    pub fn spawn_resume(&self, session_id: &str, message: &str, cwd: &str) -> (c: SpawnCommand)
        ensures
            c@ == (CommandView {
                program: self.binary@,
                args: seq![
                    "--print"@,
                    "--output-format"@,
                    "stream-json"@,
                    "--verbose"@,
                    "--allowedTools"@,
                    "Bash(grim notify *),Bash(grim mail *),Bash(grim memory *)"@,
                    "--resume"@,
                    session_id@,
                    "-p"@,
                    message@,
                ],
                env: seq![],
                cwd: Some(cwd@),
            }),
    {
        let mut c = SpawnCommand::new(self.binary.as_str());
        c.arg("--print");
        c.arg("--output-format");
        c.arg("stream-json");
        c.arg("--verbose");
        c.arg("--allowedTools");
        c.arg(GRIM_CALLBACK_TOOLS);
        c.arg("--resume");
        c.arg(session_id);
        c.arg("-p");
        c.arg(message);
        c.cwd = Some(own(cwd));
        assert(c@.args =~= seq![
            "--print"@,
            "--output-format"@,
            "stream-json"@,
            "--verbose"@,
            "--allowedTools"@,
            "Bash(grim notify *),Bash(grim mail *),Bash(grim memory *)"@,
            "--resume"@,
            session_id@,
            "-p"@,
            message@,
        ]);
        c
    }

    /// The session that a line of output opens.
    pub fn extract_session_id(&self, line: &str) -> (r: Option<String>)
        ensures
            opt_text(r) == session_of(
                json_text_at(line@, "/type"@),
                json_text_at(line@, "/session_id"@),
            ),
    {
        select_session(&text_at(line, "/type"), text_at(line, "/session_id"))
    }

    /// The result that the output ends with.
    pub fn extract_result(&self, stdout_lines: &Vec<String>) -> (r: Option<String>)
        ensures
            opt_text(r) == last_result(claude_lines(texts(stdout_lines@))),
    {
        let mut events: Vec<ClaudeEvent> = Vec::new();
        for i in 0..stdout_lines.len()
            invariant
                events@.len() == i,
                forall|k: int|
                    0 <= k < i ==> opt_text((#[trigger] events@[k]).kind) == json_text_at(
                        stdout_lines@[k]@,
                        "/type"@,
                    ) && opt_text(events@[k].result) == json_text_at(
                        stdout_lines@[k]@,
                        "/result"@,
                    ),
        {
            let line = stdout_lines[i].as_str();
            events.push(
                ClaudeEvent { kind: text_at(line, "/type"), result: text_at(line, "/result") },
            );
        }
        assert(claude_events(events@) =~= claude_lines(texts(stdout_lines@)));
        select_result(&events)
    }
}

/// The arguments that choose a model.
pub open spec fn model_args(model: Option<Seq<char>>) -> Seq<Seq<char>> {
    match model {
        Some(m) => seq!["--model"@, m],
        None => seq![],
    }
}

// ---------------------------------------------------------------------------
// Laws
// ---------------------------------------------------------------------------

/// Only an event of the system opens a session, and only a result carries
/// one.
pub proof fn events_open_sessions_and_carry_results(
    kind: Option<Seq<char>>,
    text: Option<Seq<char>>,
)
    ensures
        session_of(Some("system"@), text) == text,
        kind != Some("system"@) ==> session_of(kind, text) is None,
        result_of(Some("result"@), text) == text,
        kind != Some("result"@) ==> result_of(kind, text) is None,
{
}

/// The result of a run is that of its last line that carries one.
pub proof fn the_last_result_counts(
    events: Seq<(Option<Seq<char>>, Option<Seq<char>>)>,
    e: (Option<Seq<char>>, Option<Seq<char>>),
)
    ensures
        last_result(Seq::<(Option<Seq<char>>, Option<Seq<char>>)>::empty()) is None,
        e.0 == Some("result"@) && e.1 is Some ==> last_result(events.push(e)) == e.1,
        e.0 != Some("result"@) || e.1 is None ==> last_result(events.push(e)) == last_result(events),
{
    assert(events.push(e).drop_last() =~= events);
}

/// A line says what its members "type", "session_id" and "result" say.
pub proof fn lines_are_read_by_their_members(
    provider: ClaudeProvider,
    line: &str,
    lines: Vec<String>,
    session: Option<String>,
    result: Option<String>,
)
    requires
        lines@.len() == 1,
        lines@[0]@ == line@,
        call_ensures(ClaudeProvider::extract_session_id, (&provider, line), session),
        call_ensures(ClaudeProvider::extract_result, (&provider, &lines), result),
    ensures
        json_text_at(line@, "/type"@) == Some("system"@) ==> opt_text(session) == json_text_at(
            line@,
            "/session_id"@,
        ),
        json_text_at(line@, "/type"@) != Some("system"@) ==> session is None,
        json_text_at(line@, "/type"@) == Some("result"@) ==> opt_text(result) == json_text_at(
            line@,
            "/result"@,
        ),
        json_text_at(line@, "/type"@) != Some("result"@) ==> result is None,
{
    let said = claude_lines(texts(lines@));
    assert(said.len() == 1);
    assert(said.last() == (json_text_at(line@, "/type"@), json_text_at(line@, "/result"@)));
    assert(said.drop_last() =~= Seq::<(Option<Seq<char>>, Option<Seq<char>>)>::empty());
    assert(last_result(said.drop_last()) is None);
}

/// The process is handed the task as it is, runs in the directory that was
/// given, and with the model that was asked for, if one was.
pub proof fn tasks_are_handed_over(
    provider: ClaudeProvider,
    task: &str,
    cwd: &str,
    model: Option<&str>,
    c: SpawnCommand,
)
    requires
        call_ensures(ClaudeProvider::spawn, (&provider, task, cwd, model), c),
    ensures
        c@.program == provider.binary@,
        c@.cwd == Some(cwd@),
        c@.args[1] == "--output-format"@,
        c@.args[2] == "stream-json"@,
        c@.args[6] == "-p"@,
        c@.args[7] == task@,
        model is None ==> c@.args.len() == 8,
        model matches Some(m) ==> c@.args.len() == 10 && c@.args[8] == "--model"@ && c@.args[9]
            == m@,
{
}

/// A session is gone on with by its id and the message.
pub proof fn sessions_are_resumed_by_id(
    provider: ClaudeProvider,
    session_id: &str,
    message: &str,
    cwd: &str,
    c: SpawnCommand,
)
    requires
        call_ensures(ClaudeProvider::spawn_resume, (&provider, session_id, message, cwd), c),
    ensures
        c@.program == provider.binary@,
        c@.cwd == Some(cwd@),
        c@.args.len() == 10,
        c@.args[6] == "--resume"@,
        c@.args[7] == session_id@,
        c@.args[8] == "-p"@,
        c@.args[9] == message@,
{
}

} // verus!
