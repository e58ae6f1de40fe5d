//! Adapter for any CLI that takes a task as text and answers with text.

use super::{OutputFormat, ProviderCapabilities, ResumeStrategy};
use crate::bytes::{byte_len, cut_to_bytes, fitting};
use crate::grimw::task_runner::{fill_templates, filled};
use crate::pieces::{join, joined};
use crate::sandbox::{env_view, SandboxConfig, SpawnCommand};
use crate::text::{opt_text, own, texts, trim, trimmed, utf8_len};
use vstd::prelude::*;
use vstd::string::*;

verus! {

/// Byte cap on the project instructions that are put before a task.
pub const AGENTS_MD_BUDGET_BYTES: usize = 8_192;

/// Lines of output that make up a result.
pub const RESULT_LINES: usize = 50;

/// How a generic provider is run.
#[derive(Debug)]
pub struct ProviderConfig {
    pub binary: String,
    pub args_template: Vec<String>,
    pub env: Vec<(String, String)>,
    pub sandbox: Option<SandboxConfig>,
}

/// A provider without sessions.
#[derive(Debug)]
pub struct PlainTextProvider {
    pub provider_name: String,
    pub config: ProviderConfig,
}

/// The instructions as they are shown: whole, or as much as fits and a note.
pub open spec fn shown_instructions(content: Seq<char>) -> Seq<char> {
    if utf8_len(content) > AGENTS_MD_BUDGET_BYTES {
        fitting(content, AGENTS_MD_BUDGET_BYTES as nat) + "\n[truncated]"@
    } else {
        content
    }
}

/// The task with the project's instructions before it, where there are any.
pub open spec fn composed(instructions: Option<Seq<char>>, task: Seq<char>) -> Seq<char> {
    match instructions {
        Some(raw) => if trimmed(raw).len() == 0 {
            task
        } else {
            "## Project instructions (AGENTS.md)\n"@ + shown_instructions(trimmed(raw))
                + "\n\n## Task\n"@ + task
        },
        None => task,
    }
}

/// The last lines of the output, one below the other.
pub open spec fn tail_result(lines: Seq<Seq<char>>) -> Option<Seq<char>> {
    if lines.len() == 0 {
        None
    } else if lines.len() > RESULT_LINES {
        Some(joined(lines.skip(lines.len() - RESULT_LINES), "\n"@))
    } else {
        Some(joined(lines, "\n"@))
    }
}

impl PlainTextProvider {
    /// A provider of that name.
    pub fn new(name: String, config: ProviderConfig) -> (p: PlainTextProvider)
        ensures
            p.provider_name == name,
            p.config == config,
    {
        PlainTextProvider { provider_name: name, config }
    }

    /// The provider's name.
    pub fn name(&self) -> (r: &str)
        ensures
            r@ == self.provider_name@,
    {
        self.provider_name.as_str()
    }

    /// The arguments for a task: the configured ones, with the task in place
    /// of `{task}`.
    pub fn build_args(&self, task: &str) -> (r: Vec<String>)
        ensures
            texts(r@) == filled(texts(self.config.args_template@), task@),
    {
        fill_templates(&self.config.args_template, task)
    }

    /// Puts the project's instructions before a task, cut to
    /// [`AGENTS_MD_BUDGET_BYTES`], so that generic CLIs see them.
    /// `instructions` is what the file holds, where it can be read.
    pub fn compose_task(instructions: Option<&str>, task: &str) -> (r: String)
        ensures
            r@ == composed(crate::text::opt_str(instructions), task@),
    {
        let raw = match instructions {
            None => return own(task),
            Some(raw) => raw,
        };
        let content = trim(raw);
        if content.as_str().is_empty() {
            return own(task);
        }
        let mut r = own("## Project instructions (AGENTS.md)\n");
        let ghost head = r@;
        if byte_len(content.as_str()) > AGENTS_MD_BUDGET_BYTES {
            let cut = cut_to_bytes(content.as_str(), AGENTS_MD_BUDGET_BYTES);
            r.append(cut.as_str());
            r.append("\n[truncated]");
        } else {
            r.append(content.as_str());
        }
        assert(r@ =~= head + shown_instructions(content@));
        r.append("\n\n## Task\n");
        r.append(task);
        r
    }

    /// What the provider can do.
    pub fn capabilities(&self) -> (r: ProviderCapabilities)
        ensures
            r == (ProviderCapabilities {
                supports_resume: false,
                supports_model_selection: false,
                output_format: OutputFormat::PlainText,
            }),
    {
        ProviderCapabilities {
            supports_resume: false,
            supports_model_selection: false,
            output_format: OutputFormat::PlainText,
        }
    }

    /// How the provider takes up an earlier session: it cannot.
    pub fn resume_strategy(&self) -> (r: ResumeStrategy)
        ensures
            r == ResumeStrategy::Unsupported,
    {
        ResumeStrategy::Unsupported
    }

    /// The process that works on a task, before it is confined.
    pub fn spawn(&self, task: &str, cwd: &str, instructions: Option<&str>) -> (c: SpawnCommand)
        ensures
            c@.program == self.config.binary@,
            c@.args == filled(
                texts(self.config.args_template@),
                composed(crate::text::opt_str(instructions), task@),
            ),
            c@.env == self.config.env@.map_values(|e: (String, String)| (e.0@, Some(e.1@))),
            c@.cwd == Some(cwd@),
    {
        let whole = Self::compose_task(instructions, task);
        let mut env: Vec<(String, Option<String>)> = Vec::new();
        for i in 0..self.config.env.len()
            invariant
                env@.len() == i,
                forall|k: int|
                    0 <= k < i ==> (#[trigger] env@[k]).0@ == self.config.env@[k].0@ && opt_text(
                        env@[k].1,
                    ) == Some(self.config.env@[k].1@),
        {
            let (k, v) = &self.config.env[i];
            env.push((k.clone(), Some(v.clone())));
        }
        assert(env_view(env@) =~= self.config.env@.map_values(
            |e: (String, String)| (e.0@, Some(e.1@)),
        ));
        SpawnCommand {
            program: self.config.binary.clone(),
            args: self.build_args(whole.as_str()),
            env,
            cwd: Some(own(cwd)),
        }
    }

    /// There is no session to go on with.
    pub fn spawn_resume(&self, _session_id: &str, _message: &str, _cwd: &str) -> (r: Result<
        SpawnCommand,
        String,
    >)
        ensures
            r matches Err(e) && e@ == "Provider '"@ + self.provider_name@
                + "' does not support session resume"@,
    {
        let mut e = own("Provider '");
        e.append(self.provider_name.as_str());
        e.append("' does not support session resume");
        Err(e)
    }

    /// No line of output opens a session.
    pub fn extract_session_id(&self, _line: &str) -> (r: Option<String>)
        ensures
            r is None,
    {
        None
    }

    /// The last lines of the output.
    pub fn extract_result(&self, stdout_lines: &Vec<String>) -> (r: Option<String>)
        ensures
            opt_text(r) == tail_result(texts(stdout_lines@)),
    {
        let n: usize = stdout_lines.len();
        assert(texts(stdout_lines@).len() == n);
        if n == 0 {
            return None;
        }
        let skip: usize = if n > RESULT_LINES {
            n - RESULT_LINES
        } else {
            0
        };
        let mut tail: Vec<String> = Vec::new();
        let mut i: usize = skip;
        while i < n
            invariant
                n == stdout_lines@.len(),
                skip <= i <= n,
                tail@.len() == i - skip,
                forall|k: int| 0 <= k < i - skip ==> (#[trigger] tail@[k])@ == stdout_lines@[skip + k]@,
            decreases n - i,
        {
            tail.push(stdout_lines[i].clone());
            i = i + 1;
        }
        assert(texts(tail@) =~= texts(stdout_lines@).skip(skip as int));
        assert(skip == 0 ==> texts(stdout_lines@).skip(0) =~= texts(stdout_lines@));
        Some(join(&tail, "\n"))
    }
}

// ---------------------------------------------------------------------------
// Laws
// ---------------------------------------------------------------------------

/// The task itself always comes whole, and last.
pub proof fn task_is_never_cut(instructions: Option<Seq<char>>, task: Seq<char>)
    ensures
        task.is_suffix_of(composed(instructions, task)),
{
    let c = composed(instructions, task);
    assert(task =~= c.subrange(c.len() - task.len(), c.len() as int));
}

/// Instructions that fit in 8192 bytes come whole before the task, without
/// the white space around them; of longer ones as much as fits, with a note.
/// Blank instructions, and none, leave the task as it is.
pub proof fn instructions_come_before_the_task(raw: Seq<char>, task: Seq<char>)
    ensures
        composed(None, task) == task,
        trimmed(raw).len() == 0 ==> composed(Some(raw), task) == task,
        trimmed(raw).len() > 0 && utf8_len(trimmed(raw)) <= 8_192 ==> composed(Some(raw), task)
            == "## Project instructions (AGENTS.md)\n"@ + trimmed(raw) + "\n\n## Task\n"@ + task,
        trimmed(raw).len() > 0 && utf8_len(trimmed(raw)) > 8_192 ==> composed(Some(raw), task)
            == "## Project instructions (AGENTS.md)\n"@ + (fitting(trimmed(raw), 8_192)
            + "\n[truncated]"@) + "\n\n## Task\n"@ + task,
{
}

/// A result is the whole output up to fifty lines, and the last fifty of a
/// longer one. Without output there is none.
pub proof fn results_are_the_last_lines(lines: Seq<Seq<char>>)
    ensures
        lines.len() == 0 ==> tail_result(lines) is None,
        0 < lines.len() <= 50 ==> tail_result(lines) == Some(joined(lines, "\n"@)),
        lines.len() > 50 ==> tail_result(lines) == Some(
            joined(lines.subrange(lines.len() - 50, lines.len() as int), "\n"@),
        ),
{
    if lines.len() > 50 {
        assert(lines.skip(lines.len() - 50) =~= lines.subrange(
            lines.len() - 50,
            lines.len() as int,
        ));
    }
}

/// The process is the configured one, in the directory that was given, with
/// the configured variables.
pub proof fn tasks_are_handed_over(
    provider: PlainTextProvider,
    task: &str,
    cwd: &str,
    c: SpawnCommand,
    i: int,
)
    requires
        call_ensures(PlainTextProvider::spawn, (&provider, task, cwd, None::<&str>), c),
        0 <= i < provider.config.env@.len(),
    ensures
        c@.program == provider.config.binary@,
        c@.cwd == Some(cwd@),
        c@.env.len() == provider.config.env@.len(),
        c@.env[i].0 == provider.config.env@[i].0@,
        c@.env[i].1 == Some(provider.config.env@[i].1@),
        c@.args == filled(texts(provider.config.args_template@), task@),
{
}

} // verus!
