//! Adapter for the `pi` coding agent CLI, in its one-shot JSON mode.
//!
//! The first event of a run is `{"type":"session","id":...}`; that id resumes
//! the session. The final text is in the last `message_end` or `turn_end`
//! event of the assistant.

use super::claude::model_args;
use super::{OutputFormat, ProviderCapabilities, ResumeStrategy};
use crate::decimal::{decimal, to_decimal};
use crate::json::{json_len_at, json_text_at, len_at, text_at};
use crate::sandbox::{CommandView, SpawnCommand};
use crate::text::{is_text, opt_str, opt_text, own, texts};
use vstd::prelude::*;
use vstd::string::*;

verus! {

/// The `pi` provider.
#[derive(Debug)]
pub struct PiProvider {
    pub binary: String,
}

/// One part of a message.
#[derive(Debug)]
pub struct PiPart {
    pub kind: Option<String>,
    pub text: Option<String>,
}

/// What a line of output says.
#[derive(Debug)]
pub struct PiEvent {
    pub kind: Option<String>,
    pub role: Option<String>,
    /// The parts of the message, where it has a list of them.
    pub content: Option<Vec<PiPart>>,
}

/// What a [`PiPart`] says.
pub ghost struct PartView {
    pub kind: Option<Seq<char>>,
    pub text: Option<Seq<char>>,
}

/// What a [`PiEvent`] says.
#[verifier::ext_equal]
pub ghost struct PiView {
    pub kind: Option<Seq<char>>,
    pub role: Option<Seq<char>>,
    pub content: Option<Seq<PartView>>,
}

/// What each part of a list says.
pub open spec fn parts_view(parts: Seq<PiPart>) -> Seq<PartView> {
    parts.map_values(|p: PiPart| PartView { kind: opt_text(p.kind), text: opt_text(p.text) })
}

impl View for PiEvent {
    type V = PiView;

    open spec fn view(&self) -> PiView {
        PiView {
            kind: opt_text(self.kind),
            role: opt_text(self.role),
            content: match self.content {
                Some(parts) => Some(parts_view(parts@)),
                None => None,
            },
        }
    }
}

/// The text parts of a message, one after the other.
pub open spec fn joined_text(parts: Seq<PartView>) -> Seq<char>
    decreases parts.len(),
{
    if parts.len() == 0 {
        seq![]
    } else {
        let before = joined_text(parts.drop_last());
        match parts.last().text {
            Some(t) => if parts.last().kind == Some("text"@) {
                before + t
            } else {
                before
            },
            None => before,
        }
    }
}

/// Whether an event ends a message of the assistant, or a turn with one.
pub open spec fn ends_message(e: PiView) -> bool {
    (e.kind == Some("message_end"@) || e.kind == Some("turn_end"@)) && e.role == Some(
        "assistant"@,
    )
}

/// Whether an event ends a message that has no list of parts. What came
/// before it is no result.
pub open spec fn without_parts(e: PiView) -> bool {
    ends_message(e) && e.content is None
}

/// The text that an event gives as the result, if it gives one: that of an
/// assistant's message at its end or at the end of a turn. An event without
/// such a message, without a list of parts or without text gives none.
pub open spec fn outcome(e: PiView) -> Option<Seq<char>> {
    if !ends_message(e) {
        None
    } else {
        match e.content {
            None => None,
            Some(parts) => if joined_text(parts).len() > 0 {
                Some(joined_text(parts))
            } else {
                None
            },
        }
    }
}

/// The result of a run: the text of the last event that gives one. There is
/// none where a message without a list of parts ended after it.
pub open spec fn run_result(events: Seq<PiView>) -> Option<Seq<char>>
    decreases events.len(),
{
    if events.len() == 0 || without_parts(events.last()) {
        None
    } else {
        match outcome(events.last()) {
            Some(r) => Some(r),
            None => run_result(events.drop_last()),
        }
    }
}

/// The pointer to a member of the `i`th part of a message.
pub open spec fn part_pointer(i: nat, member: Seq<char>) -> Seq<char> {
    "/message/content/"@ + decimal(i) + member
}

/// What a line of output says.
pub open spec fn pi_line(line: Seq<char>) -> PiView {
    PiView {
        kind: json_text_at(line, "/type"@),
        role: json_text_at(line, "/message/role"@),
        content: match json_len_at(line, "/message/content"@) {
            Some(n) => Some(
                Seq::new(
                    n,
                    |i: int|
                        PartView {
                            kind: json_text_at(line, part_pointer(i as nat, "/type"@)),
                            text: json_text_at(line, part_pointer(i as nat, "/text"@)),
                        },
                ),
            ),
            None => None,
        },
    }
}

/// What events say.
pub open spec fn pi_events(events: Seq<PiEvent>) -> Seq<PiView> {
    events.map_values(|e: PiEvent| e@)
}

/// What lines of output say.
pub open spec fn pi_lines(lines: Seq<Seq<char>>) -> Seq<PiView> {
    lines.map_values(|l: Seq<char>| pi_line(l))
}

fn join_text(parts: &Vec<PiPart>) -> (r: String)
    ensures
        r@ == joined_text(parts_view(parts@)),
{
    let ghost all = parts_view(parts@);
    let mut r = String::new();
    assert(all.take(0) =~= Seq::<PartView>::empty());
    for i in 0..parts.len()
        invariant
            all == parts_view(parts@),
            r@ == joined_text(all.take(i as int)),
    {
        let p = &parts[i];
        proof {
            let now = all.take(i + 1);
            assert(now.drop_last() =~= all.take(i as int));
            assert(now.last() == (PartView { kind: opt_text(p.kind), text: opt_text(p.text) }));
        }
        if is_text(&p.kind, "text") {
            if let Some(t) = &p.text {
                r.append(t.as_str());
            }
        }
    }
    assert(all.take(all.len() as int) =~= all);
    r
}

fn ends_assistant_message(e: &PiEvent) -> (r: bool)
    ensures
        r == ends_message(e@),
{
    (is_text(&e.kind, "message_end") || is_text(&e.kind, "turn_end")) && is_text(
        &e.role,
        "assistant",
    )
}

/// The text that an event gives as the result, if it gives one.
pub fn settle(e: &PiEvent) -> (r: Option<String>)
    ensures
        opt_text(r) == outcome(e@),
{
    if !ends_assistant_message(e) {
        return None;
    }
    match &e.content {
        None => None,
        Some(parts) => {
            let text = join_text(parts);
            if text.as_str().is_empty() {
                None
            } else {
                Some(text)
            }
        },
    }
}

/// The result of a run, from what its lines of output say.
pub fn select_text(events: &Vec<PiEvent>) -> (r: Option<String>)
    ensures
        opt_text(r) == run_result(pi_events(events@)),
{
    let ghost all = pi_events(events@);
    let mut n: usize = events.len();
    assert(all.take(all.len() as int) =~= all);
    while n > 0
        invariant
            n <= events@.len(),
            all == pi_events(events@),
            run_result(all) == run_result(all.take(n as int)),
        decreases n,
    {
        let e = &events[n - 1];
        proof {
            assert(all.take(n as int).last() == all[n - 1]);
            assert(all[n - 1] == e@);
            assert(all.take(n as int).drop_last() =~= all.take(n - 1));
        }
        if e.content.is_none() && ends_assistant_message(e) {
            return None;
        }
        if let Some(found) = settle(e) {
            return Some(found);
        }
        n = n - 1;
    }
    None
}

/// Reads what a line of output says.
pub fn read_event(line: &str) -> (e: PiEvent)
    ensures
        e@ == pi_line(line@),
{
    let content: Option<Vec<PiPart>> = match len_at(line, "/message/content") {
        None => None,
        Some(n) => {
            let mut parts: Vec<PiPart> = Vec::new();
            for i in 0..n
                invariant
                    parts@.len() == i,
                    forall|k: int|
                        0 <= k < i ==> opt_text((#[trigger] parts@[k]).kind) == json_text_at(
                            line@,
                            part_pointer(k as nat, "/type"@),
                        ) && opt_text(parts@[k].text) == json_text_at(
                            line@,
                            part_pointer(k as nat, "/text"@),
                        ),
            {
                let mut base = own("/message/content/");
                base.append(to_decimal(i as u64).as_str());
                let kind_at = crate::text::cat(base.as_str(), "/type");
                let text_ptr = crate::text::cat(base.as_str(), "/text");
                parts.push(
                    PiPart {
                        kind: text_at(line, kind_at.as_str()),
                        text: text_at(line, text_ptr.as_str()),
                    },
                );
            }
            Some(parts)
        },
    };
    let e = PiEvent {
        kind: text_at(line, "/type"),
        role: text_at(line, "/message/role"),
        content,
    };
    proof {
        if let Some(ref parts) = e.content {
            assert(parts_view(parts@) =~= pi_line(line@).content->0);
        }
    }
    e
}

impl PiProvider {
    /// The provider that runs `binary`.
    pub fn new(binary: String) -> (p: PiProvider)
        ensures
            p.binary == binary,
    {
        PiProvider { binary }
    }

    /// The provider's name.
    pub fn name(&self) -> (r: &'static str)
        ensures
            r@ == "pi"@,
    {
        "pi"
    }

    /// What the provider can do.
    pub fn capabilities(&self) -> (r: ProviderCapabilities)
        ensures
            r == (ProviderCapabilities {
                supports_resume: true,
                supports_model_selection: true,
                output_format: OutputFormat::StreamJson,
            }),
    {
        ProviderCapabilities {
            supports_resume: true,
            supports_model_selection: true,
            output_format: OutputFormat::StreamJson,
        }
    }

    /// How the provider takes up an earlier session.
    pub fn resume_strategy(&self) -> (r: ResumeStrategy)
        ensures
            r == ResumeStrategy::Native,
    {
        ResumeStrategy::Native
    }

    /// The process that works on a task. The session is kept, so that it can
    /// be resumed.
    pub fn spawn(&self, task: &str, cwd: &str, model: Option<&str>) -> (c: SpawnCommand)
        ensures
            c@ == (CommandView {
                program: self.binary@,
                args: seq!["-p"@, "--mode"@, "json"@] + model_args(opt_str(model)) + seq![task@],
                env: seq![],
                cwd: Some(cwd@),
            }),
    {
        let mut c = SpawnCommand::new(self.binary.as_str());
        c.arg("-p");
        c.arg("--mode");
        c.arg("json");
        if let Some(m) = model {
            c.arg("--model");
            c.arg(m);
        }
        c.arg(task);
        c.cwd = Some(own(cwd));
        assert(c@.args =~= seq!["-p"@, "--mode"@, "json"@] + model_args(opt_str(model)) + seq![
            task@,
        ]);
        c
    }

    /// The process that goes on with a session.
    pub fn spawn_resume(&self, session_id: &str, message: &str, cwd: &str) -> (c: SpawnCommand)
        ensures
            c@ == (CommandView {
                program: self.binary@,
                args: seq!["--session"@, session_id@, "-p"@, "--mode"@, "json"@, message@],
                env: seq![],
                cwd: Some(cwd@),
            }),
    {
        let mut c = SpawnCommand::new(self.binary.as_str());
        c.arg("--session");
        c.arg(session_id);
        c.arg("-p");
        c.arg("--mode");
        c.arg("json");
        c.arg(message);
        c.cwd = Some(own(cwd));
        assert(c@.args =~= seq![
            "--session"@,
            session_id@,
            "-p"@,
            "--mode"@,
            "json"@,
            message@,
        ]);
        c
    }

    /// The session that a line of output opens.
    pub fn extract_session_id(&self, line: &str) -> (r: Option<String>)
        ensures
            opt_text(r) == (if json_text_at(line@, "/type"@) == Some("session"@) {
                json_text_at(line@, "/id"@)
            } else {
                None
            }),
    {
        if is_text(&text_at(line, "/type"), "session") {
            return text_at(line, "/id");
        }
        None
    }

    /// The result that the output ends with.
    pub fn extract_result(&self, stdout_lines: &Vec<String>) -> (r: Option<String>)
        ensures
            opt_text(r) == run_result(pi_lines(texts(stdout_lines@))),
    {
        let mut events: Vec<PiEvent> = Vec::new();
        for i in 0..stdout_lines.len()
            invariant
                events@.len() == i,
                forall|k: int|
                    0 <= k < i ==> (#[trigger] events@[k])@ == pi_line(stdout_lines@[k]@),
        {
            events.push(read_event(stdout_lines[i].as_str()));
        }
        assert(pi_events(events@) =~= pi_lines(texts(stdout_lines@)));
        select_text(&events)
    }
}

// ---------------------------------------------------------------------------
// Laws
// ---------------------------------------------------------------------------

/// The text of a message is that of its text parts, one after the other.
pub proof fn text_parts_make_the_text(parts: Seq<PartView>, p: PartView)
    ensures
        joined_text(Seq::<PartView>::empty()).len() == 0,
        p.kind == Some("text"@) && p.text is Some ==> joined_text(parts.push(p)) == joined_text(
            parts,
        ) + p.text->0,
        p.kind != Some("text"@) || p.text is None ==> joined_text(parts.push(p)) == joined_text(
            parts,
        ),
{
    assert(parts.push(p).drop_last() =~= parts);
}

/// The result of a run is the text of the assistant's last message that has
/// some. Events that end no message of the assistant do not count, and one
/// that ends a message without parts takes the result away.
pub proof fn the_last_message_counts(events: Seq<PiView>, e: PiView)
    ensures
        run_result(Seq::<PiView>::empty()) is None,
        e.role != Some("assistant"@) ==> run_result(events.push(e)) == run_result(events),
        e.kind != Some("message_end"@) && e.kind != Some("turn_end"@) ==> run_result(
            events.push(e),
        ) == run_result(events),
        e.role == Some("assistant"@) && (e.kind == Some("message_end"@) || e.kind == Some(
            "turn_end"@,
        )) ==> {
            &&& e.content is None ==> run_result(events.push(e)) is None
            &&& e.content matches Some(parts) ==> joined_text(parts).len() > 0 ==> run_result(
                events.push(e),
            ) == Some(joined_text(parts))
            &&& e.content matches Some(parts) ==> joined_text(parts).len() == 0 ==> run_result(
                events.push(e),
            ) == run_result(events)
        },
{
    assert(events.push(e).drop_last() =~= events);
}

/// A line says what its members say: its type, its message's role, and of
/// each part of the message its type and its text.
pub proof fn lines_are_read_by_their_members(line: Seq<char>, i: nat)
    ensures
        pi_line(line).kind == json_text_at(line, "/type"@),
        pi_line(line).role == json_text_at(line, "/message/role"@),
        json_len_at(line, "/message/content"@) is None ==> pi_line(line).content is None,
        json_len_at(line, "/message/content"@) matches Some(n) ==> {
            &&& pi_line(line).content is Some
            &&& pi_line(line).content->0.len() == n
            &&& i < n ==> pi_line(line).content->0[i as int].kind == json_text_at(
                line,
                "/message/content/"@ + decimal(i) + "/type"@,
            )
            &&& i < n ==> pi_line(line).content->0[i as int].text == json_text_at(
                line,
                "/message/content/"@ + decimal(i) + "/text"@,
            )
        },
{
}

/// The first event of a run opens its session.
pub proof fn session_events_open_sessions(provider: PiProvider, line: &str, r: Option<String>)
    requires
        call_ensures(PiProvider::extract_session_id, (&provider, line), r),
    ensures
        json_text_at(line@, "/type"@) == Some("session"@) ==> opt_text(r) == json_text_at(
            line@,
            "/id"@,
        ),
        json_text_at(line@, "/type"@) != Some("session"@) ==> r is None,
{
}

/// The process is handed the task last and as it is, runs in the directory
/// that was given, and with the model that was asked for, if one was.
pub proof fn tasks_are_handed_over(
    provider: PiProvider,
    task: &str,
    cwd: &str,
    model: Option<&str>,
    c: SpawnCommand,
)
    requires
        call_ensures(PiProvider::spawn, (&provider, task, cwd, model), c),
    ensures
        c@.program == provider.binary@,
        c@.cwd == Some(cwd@),
        c@.args[0] == "-p"@,
        c@.args[1] == "--mode"@,
        c@.args[2] == "json"@,
        c@.args.last() == task@,
        model is None ==> c@.args.len() == 4,
        model matches Some(m) ==> c@.args.len() == 6 && c@.args[3] == "--model"@ && c@.args[4]
            == m@,
{
}

/// A session is gone on with by its id and the message.
pub proof fn sessions_are_resumed_by_id(
    provider: PiProvider,
    session_id: &str,
    message: &str,
    cwd: &str,
    c: SpawnCommand,
)
    requires
        call_ensures(PiProvider::spawn_resume, (&provider, session_id, message, cwd), c),
    ensures
        c@.program == provider.binary@,
        c@.cwd == Some(cwd@),
        c@.args.len() == 6,
        c@.args[0] == "--session"@,
        c@.args[1] == session_id@,
        c@.args[5] == message@,
{
}

} // verus!
