//! Markdown spec → [`ScrollSpec`] parser.
//!
//! Walks the events of a markdown document, so indented list items, code
//! spans and block structure have their markdown meaning. A scroll is one
//! `# Scroll:` heading, workspace directives, and `## Task:` sections, each
//! with metadata list items before its prompt.

use crate::pieces::{split, split_at_char};
use crate::text::{after_prefix, copy_texts, holds, opt_text, own, same, texts, trim, trimmed};
use pulldown_cmark::{Event, Parser, Tag, TagEnd};
use vstd::prelude::*;
use vstd::string::*;

verus! {

// ---------------------------------------------------------------------------
// Markdown events
// ---------------------------------------------------------------------------

/// The markdown events that the grammar reads.
#[derive(Debug)]
pub enum MdEvent {
    StartHeading(u8),
    EndHeading(u8),
    StartItem,
    EndItem,
    StartParagraph,
    Text(String),
    Code(String),
    SoftBreak,
    HardBreak,
    Other,
}

/// What an [`MdEvent`] says.
pub ghost enum MdView {
    StartHeading(u8),
    EndHeading(u8),
    StartItem,
    EndItem,
    StartParagraph,
    Text(Seq<char>),
    Code(Seq<char>),
    SoftBreak,
    HardBreak,
    Other,
}

impl View for MdEvent {
    type V = MdView;

    open spec fn view(&self) -> MdView {
        match self {
            MdEvent::StartHeading(n) => MdView::StartHeading(*n),
            MdEvent::EndHeading(n) => MdView::EndHeading(*n),
            MdEvent::StartItem => MdView::StartItem,
            MdEvent::EndItem => MdView::EndItem,
            MdEvent::StartParagraph => MdView::StartParagraph,
            MdEvent::Text(t) => MdView::Text(t@),
            MdEvent::Code(t) => MdView::Code(t@),
            MdEvent::SoftBreak => MdView::SoftBreak,
            MdEvent::HardBreak => MdView::HardBreak,
            MdEvent::Other => MdView::Other,
        }
    }
}

/// What each event of a list says.
pub open spec fn events_view(events: Seq<MdEvent>) -> Seq<MdView> {
    events.map_values(|e: MdEvent| e@)
}

/// The events that `pulldown_cmark::Parser` yields for a text, without
/// extensions; every event that [`MdView`] does not name is `Other`.
pub uninterp spec fn markdown(content: Seq<char>) -> Seq<MdView>;

/// Calls `pulldown_cmark::Parser::new` and collects its events. What they are
/// is a function of the text alone, and is not said further.
#[verifier::external_body]
pub(crate) fn markdown_events(content: &str) -> (r: Vec<MdEvent>)
    ensures
        events_view(r@) == markdown(content@),
{
    let convert = |event| match event {
        Event::Start(Tag::Heading { level, .. }) => MdEvent::StartHeading(level as u8),
        Event::End(TagEnd::Heading(level)) => MdEvent::EndHeading(level as u8),
        Event::Start(Tag::Item) => MdEvent::StartItem,
        Event::End(TagEnd::Item) => MdEvent::EndItem,
        Event::Start(Tag::Paragraph) => MdEvent::StartParagraph,
        Event::Text(t) => MdEvent::Text(t.to_string()),
        Event::Code(t) => MdEvent::Code(t.to_string()),
        Event::SoftBreak => MdEvent::SoftBreak,
        Event::HardBreak => MdEvent::HardBreak,
        _ => MdEvent::Other,
    };
    Parser::new(content).map(convert).collect()
}

// ---------------------------------------------------------------------------
// Parsed specs
// ---------------------------------------------------------------------------

/// Parsed spec before insertion into the database.
#[derive(Debug)]
pub struct ScrollSpec {
    pub name: String,
    pub tasks: Vec<TaskSpec>,
    pub workspace: Option<String>,
    pub workspace_repo: Option<String>,
    pub workspace_branch: Option<String>,
}

/// One `## Task:` section.
#[derive(Debug)]
pub struct TaskSpec {
    pub name: String,
    pub prompt: String,
    pub provider: Option<String>,
    pub model: Option<String>,
    pub cwd: Option<String>,
    pub file_patterns: Vec<String>,
    pub depends_on: Vec<String>,
    /// When set, the task is dispatched to the named peer.
    pub peer: Option<String>,
    /// Rubric that the worker's completion is scored against.
    pub verify: Option<String>,
    /// Pass threshold for the score, as it was written.
    pub verify_threshold: Option<String>,
}

/// A `verify_threshold:` line and the task it was found in. Whether the text
/// is a number between 0 and 1 is for the caller to say.
#[derive(Debug)]
pub struct ThresholdLine {
    pub task: String,
    pub value: String,
}

/// What a [`TaskSpec`] holds.
#[verifier::ext_equal]
pub ghost struct TaskView {
    pub name: Seq<char>,
    pub prompt: Seq<char>,
    pub provider: Option<Seq<char>>,
    pub model: Option<Seq<char>>,
    pub cwd: Option<Seq<char>>,
    pub file_patterns: Seq<Seq<char>>,
    pub depends_on: Seq<Seq<char>>,
    pub peer: Option<Seq<char>>,
    pub verify: Option<Seq<char>>,
    pub verify_threshold: Option<Seq<char>>,
}

impl View for TaskSpec {
    type V = TaskView;

    open spec fn view(&self) -> TaskView {
        TaskView {
            name: self.name@,
            prompt: self.prompt@,
            provider: opt_text(self.provider),
            model: opt_text(self.model),
            cwd: opt_text(self.cwd),
            file_patterns: texts(self.file_patterns@),
            depends_on: texts(self.depends_on@),
            peer: opt_text(self.peer),
            verify: opt_text(self.verify),
            verify_threshold: opt_text(self.verify_threshold),
        }
    }
}

/// What each task of a list holds.
pub open spec fn tasks_view(tasks: Seq<TaskSpec>) -> Seq<TaskView> {
    tasks.map_values(|t: TaskSpec| t@)
}

/// What each threshold line of a list holds: task name, then text.
pub open spec fn thresholds_view(lines: Seq<ThresholdLine>) -> Seq<(Seq<char>, Seq<char>)> {
    lines.map_values(|l: ThresholdLine| (l.task@, l.value@))
}

/// What the events of a document add up to.
pub struct Doc {
    pub scroll_name: Option<String>,
    pub workspace: Option<String>,
    pub workspace_repo: Option<String>,
    pub workspace_branch: Option<String>,
    pub tasks: Vec<TaskSpec>,
    pub thresholds: Vec<ThresholdLine>,
}

/// What a [`Doc`] holds.
#[verifier::ext_equal]
pub ghost struct DocView {
    pub scroll_name: Option<Seq<char>>,
    pub workspace: Option<Seq<char>>,
    pub workspace_repo: Option<Seq<char>>,
    pub workspace_branch: Option<Seq<char>>,
    pub tasks: Seq<TaskView>,
    pub thresholds: Seq<(Seq<char>, Seq<char>)>,
}

impl View for Doc {
    type V = DocView;

    open spec fn view(&self) -> DocView {
        DocView {
            scroll_name: opt_text(self.scroll_name),
            workspace: opt_text(self.workspace),
            workspace_repo: opt_text(self.workspace_repo),
            workspace_branch: opt_text(self.workspace_branch),
            tasks: tasks_view(self.tasks@),
            thresholds: thresholds_view(self.thresholds@),
        }
    }
}

// ---------------------------------------------------------------------------
// Directives and metadata
// ---------------------------------------------------------------------------

/// The trimmed pieces of `parts` that are not empty.
pub open spec fn kept(parts: Seq<Seq<char>>) -> Seq<Seq<char>>
    decreases parts.len(),
{
    if parts.len() == 0 {
        seq![]
    } else {
        let before = kept(parts.drop_last());
        let last = trimmed(parts.last());
        if last.len() == 0 {
            before
        } else {
            before.push(last)
        }
    }
}

/// The entries of a comma-separated list: trimmed, without empty ones.
pub open spec fn csv(s: Seq<char>) -> Seq<Seq<char>> {
    kept(split(s, ','))
}

fn split_csv(s: &str) -> (r: Vec<String>)
    ensures
        texts(r@) == csv(s@),
{
    let parts = split_at_char(s, ',');
    let mut r: Vec<String> = Vec::new();
    for i in 0..parts.len()
        invariant
            texts(r@) == kept(texts(parts@).take(i as int)),
    {
        let t = trim(parts[i].as_str());
        let ghost before = texts(r@);
        proof {
            let now = texts(parts@).take(i + 1);
            assert(now.drop_last() =~= texts(parts@).take(i as int));
            assert(now.last() == parts@[i as int]@);
        }
        if !t.as_str().is_empty() {
            r.push(t);
            assert(texts(r@) =~= before.push(t@));
        }
    }
    assert(texts(parts@).take(parts@.len() as int) =~= texts(parts@));
    r
}

/// The trimmed value of a `key:` line.
pub open spec fn value_of(line: Seq<char>, key: Seq<char>) -> Option<Seq<char>> {
    if key.is_prefix_of(line) {
        Some(trimmed(line.skip(key.len() as int)))
    } else {
        None
    }
}

fn value_after(line: &str, key: &str) -> (r: Option<String>)
    ensures
        opt_text(r) == value_of(line@, key@),
{
    match after_prefix(line, key) {
        Some(v) => Some(trim(v.as_str())),
        None => None,
    }
}

/// `d` with a workspace directive applied; any other line changes nothing.
pub open spec fn with_directive(d: DocView, line: Seq<char>) -> DocView {
    if let Some(v) = value_of(line, "workspace_repo:"@) {
        DocView { workspace_repo: Some(v), ..d }
    } else if let Some(v) = value_of(line, "workspace_branch:"@) {
        DocView { workspace_branch: Some(v), ..d }
    } else if let Some(v) = value_of(line, "workspace:"@) {
        DocView { workspace: Some(v), ..d }
    } else {
        d
    }
}

fn apply_workspace_directive(line: &str, doc: &mut Doc)
    ensures
        final(doc)@ == with_directive(old(doc)@, line@),
{
    if let Some(v) = value_after(line, "workspace_repo:") {
        doc.workspace_repo = Some(v);
    } else if let Some(v) = value_after(line, "workspace_branch:") {
        doc.workspace_branch = Some(v);
    } else if let Some(v) = value_after(line, "workspace:") {
        doc.workspace = Some(v);
    }
}

/// `t` with a metadata line applied; a line with none of the keys changes
/// nothing, and so do an empty `depends:`, `peer:` or `verify:` and the
/// words that stand for no dependency.
pub open spec fn with_metadata(t: TaskView, line: Seq<char>) -> TaskView {
    if "files:"@.is_prefix_of(line) {
        TaskView { file_patterns: csv(line.skip("files:"@.len() as int)), ..t }
    } else if let Some(v) = value_of(line, "depends:"@) {
        if v.len() > 0 && v != "(none)"@ && v != "none"@ {
            TaskView { depends_on: csv(v), ..t }
        } else {
            t
        }
    } else if let Some(v) = value_of(line, "provider:"@) {
        TaskView { provider: Some(v), ..t }
    } else if let Some(v) = value_of(line, "model:"@) {
        TaskView { model: Some(v), ..t }
    } else if let Some(v) = value_of(line, "cwd:"@) {
        TaskView { cwd: Some(v), ..t }
    } else if let Some(v) = value_of(line, "peer:"@) {
        if v.len() > 0 {
            TaskView { peer: Some(v), ..t }
        } else {
            t
        }
    } else if let Some(v) = value_of(line, "verify_threshold:"@) {
        TaskView { verify_threshold: Some(v), ..t }
    } else if let Some(v) = value_of(line, "verify:"@) {
        if v.len() > 0 {
            TaskView { verify: Some(v), ..t }
        } else {
            t
        }
    } else {
        t
    }
}

/// The threshold that a metadata line sets, if it sets one.
pub open spec fn threshold_of(line: Seq<char>) -> Option<Seq<char>> {
    if "files:"@.is_prefix_of(line) || "depends:"@.is_prefix_of(line) || "provider:"@.is_prefix_of(
        line,
    ) || "model:"@.is_prefix_of(line) || "cwd:"@.is_prefix_of(line) || "peer:"@.is_prefix_of(
        line,
    ) {
        None
    } else {
        value_of(line, "verify_threshold:"@)
    }
}

fn apply_task_metadata(line: &str, task: &mut TaskSpec) -> (threshold: Option<String>)
    ensures
        final(task)@ == with_metadata(old(task)@, line@),
        opt_text(threshold) == threshold_of(line@),
{
    if let Some(v) = after_prefix(line, "files:") {
        task.file_patterns = split_csv(v.as_str());
    } else if let Some(v) = value_after(line, "depends:") {
        if !v.as_str().is_empty() && !same(v.as_str(), "(none)") && !same(v.as_str(), "none") {
            task.depends_on = split_csv(v.as_str());
        }
    } else if let Some(v) = value_after(line, "provider:") {
        task.provider = Some(v);
    } else if let Some(v) = value_after(line, "model:") {
        task.model = Some(v);
    } else if let Some(v) = value_after(line, "cwd:") {
        task.cwd = Some(v);
    } else if let Some(v) = value_after(line, "peer:") {
        if !v.as_str().is_empty() {
            task.peer = Some(v);
        }
    } else if let Some(v) = value_after(line, "verify_threshold:") {
        let copy = v.clone();
        task.verify_threshold = Some(v);
        return Some(copy);
    } else if let Some(v) = value_after(line, "verify:") {
        if !v.as_str().is_empty() {
            task.verify = Some(v);
        }
    }
    None
}

// ---------------------------------------------------------------------------
// The walk
// ---------------------------------------------------------------------------

/// Where in the document the walk stands.
#[derive(Clone, Copy, Debug, PartialEq, Eq, Structural)]
pub enum Scope {
    /// Before any `## Task:` heading, or under another `##` heading. List
    /// items are workspace directives.
    PreTask,
    /// Inside a `## Task:` section. List items are task metadata until the
    /// first paragraph; then everything is prompt body.
    InTask { metadata_open: bool },
}

/// Working state while consuming markdown events.
pub struct Walk {
    pub doc: Doc,
    pub scope: Scope,
    pub current: Option<TaskSpec>,
    pub prompt: String,
    pub h1: Option<String>,
    pub h2: Option<String>,
    pub in_item: bool,
    pub item: String,
}

/// What a [`Walk`] holds.
#[verifier::ext_equal]
pub ghost struct WalkView {
    pub doc: DocView,
    pub scope: Scope,
    pub current: Option<TaskView>,
    pub prompt: Seq<char>,
    pub h1: Option<Seq<char>>,
    pub h2: Option<Seq<char>>,
    pub in_item: bool,
    pub item: Seq<char>,
}

impl View for Walk {
    type V = WalkView;

    open spec fn view(&self) -> WalkView {
        WalkView {
            doc: self.doc@,
            scope: self.scope,
            current: match self.current {
                Some(t) => Some(t@),
                None => None,
            },
            prompt: self.prompt@,
            h1: opt_text(self.h1),
            h2: opt_text(self.h2),
            in_item: self.in_item,
            item: self.item@,
        }
    }
}

/// `s` without any of the `p`s that it starts with.
pub open spec fn without_leading(s: Seq<char>, p: Seq<char>) -> Seq<char>
    decreases s.len(),
{
    if p.len() > 0 && p.is_prefix_of(s) {
        without_leading(s.skip(p.len() as int), p)
    } else {
        s
    }
}

/// The scroll's name in a first-level heading.
pub open spec fn scroll_name(heading: Seq<char>) -> Seq<char> {
    trimmed(without_leading(trimmed(heading), "Scroll:"@))
}

/// The task's name in a second-level heading, where it opens a task.
pub open spec fn task_name(heading: Seq<char>) -> Option<Seq<char>> {
    match value_of(trimmed(heading), "Task:"@) {
        Some(name) => if name.len() > 0 {
            Some(name)
        } else {
            None
        },
        None => None,
    }
}

/// A task of which only the name is known.
pub open spec fn new_task(name: Seq<char>) -> TaskView {
    TaskView {
        name,
        prompt: seq![],
        provider: None,
        model: None,
        cwd: None,
        file_patterns: seq![],
        depends_on: seq![],
        peer: None,
        verify: None,
        verify_threshold: None,
    }
}

/// `w` with its open task, if any, closed: what was gathered is its prompt.
pub open spec fn close_task(w: WalkView) -> WalkView {
    match w.current {
        Some(t) => WalkView {
            doc: DocView {
                tasks: w.doc.tasks.push(TaskView { prompt: trimmed(w.prompt), ..t }),
                ..w.doc
            },
            current: None,
            prompt: seq![],
            ..w
        },
        None => WalkView { prompt: seq![], ..w },
    }
}

/// Whether text is gathered as prompt.
pub open spec fn in_prompt(w: WalkView) -> bool {
    w.scope == Scope::InTask { metadata_open: false }
}

/// `w` with the text of a closed list item taken in.
pub open spec fn close_item(w: WalkView) -> WalkView {
    let line = trimmed(w.item);
    let w = WalkView { in_item: false, ..w };
    match w.scope {
        Scope::PreTask => WalkView { doc: with_directive(w.doc, line), ..w },
        Scope::InTask { metadata_open: true } => match w.current {
            Some(t) => WalkView {
                current: Some(with_metadata(t, line)),
                doc: match threshold_of(line) {
                    Some(v) => DocView { thresholds: w.doc.thresholds.push((t.name, v)), ..w.doc },
                    None => w.doc,
                },
                ..w
            },
            None => w,
        },
        Scope::InTask { metadata_open: false } => WalkView {
            prompt: (if w.prompt.len() > 0 {
                w.prompt + "\n- "@
            } else {
                w.prompt + "- "@
            }) + line,
            ..w
        },
    }
}

/// `w` with a run of text taken in where it belongs.
pub open spec fn take_text(w: WalkView, t: Seq<char>) -> WalkView {
    if let Some(h) = w.h1 {
        WalkView { h1: Some(h + t), ..w }
    } else if let Some(h) = w.h2 {
        WalkView { h2: Some(h + t), ..w }
    } else if w.in_item {
        WalkView { item: w.item + t, ..w }
    } else if in_prompt(w) {
        WalkView { prompt: w.prompt + t, ..w }
    } else {
        w
    }
}

/// `w` with a line break taken in where it belongs.
pub open spec fn take_break(w: WalkView) -> WalkView {
    if w.in_item {
        WalkView { item: w.item.push(' '), ..w }
    } else if in_prompt(w) {
        WalkView { prompt: w.prompt.push('\n'), ..w }
    } else {
        w
    }
}

/// One event.
pub open spec fn step(w: WalkView, e: MdView) -> WalkView {
    match e {
        MdView::StartHeading(n) => if n == 1 {
            WalkView { h1: Some(seq![]), ..w }
        } else if n == 2 {
            WalkView { scope: Scope::PreTask, h2: Some(seq![]), ..close_task(w) }
        } else {
            w
        },
        MdView::EndHeading(n) => if n == 1 {
            match (w.h1, w.doc.scroll_name) {
                (Some(raw), None) => WalkView {
                    h1: None,
                    doc: DocView { scroll_name: Some(scroll_name(raw)), ..w.doc },
                    ..w
                },
                _ => WalkView { h1: None, ..w },
            }
        } else if n == 2 {
            match w.h2 {
                Some(raw) => match task_name(raw) {
                    Some(name) => WalkView {
                        h2: None,
                        current: Some(new_task(name)),
                        scope: Scope::InTask { metadata_open: true },
                        ..w
                    },
                    None => WalkView { h2: None, ..w },
                },
                None => w,
            }
        } else {
            w
        },
        MdView::StartItem => WalkView { in_item: true, item: seq![], ..w },
        MdView::EndItem => close_item(w),
        MdView::StartParagraph => match w.scope {
            Scope::PreTask => w,
            Scope::InTask { .. } => WalkView {
                scope: Scope::InTask { metadata_open: false },
                prompt: if w.prompt.len() > 0 {
                    w.prompt + "\n\n"@
                } else {
                    w.prompt
                },
                ..w
            },
        },
        MdView::Text(t) => take_text(w, t),
        MdView::Code(t) => take_text(w, t),
        MdView::SoftBreak => take_break(w),
        MdView::HardBreak => take_break(w),
        MdView::Other => w,
    }
}

/// The walk before the first event.
pub open spec fn walk_start() -> WalkView {
    WalkView {
        doc: DocView {
            scroll_name: None,
            workspace: None,
            workspace_repo: None,
            workspace_branch: None,
            tasks: seq![],
            thresholds: seq![],
        },
        scope: Scope::PreTask,
        current: None,
        prompt: seq![],
        h1: None,
        h2: None,
        in_item: false,
        item: seq![],
    }
}

/// The walk after `events`.
pub open spec fn steps(events: Seq<MdView>) -> WalkView
    decreases events.len(),
{
    if events.len() == 0 {
        walk_start()
    } else {
        step(steps(events.drop_last()), events.last())
    }
}

/// The document that `events` add up to.
pub open spec fn doc_of(events: Seq<MdView>) -> DocView {
    close_task(steps(events)).doc
}

fn strip_leading(s: String, p: &str) -> (r: String)
    ensures
        r@ == without_leading(s@, p@),
    decreases s@.len(),
{
    if p.is_empty() {
        return s;
    }
    match after_prefix(s.as_str(), p) {
        Some(rest) => strip_leading(rest, p),
        None => s,
    }
}

impl Walk {
    fn start() -> (w: Walk)
        ensures
            w@ == walk_start(),
    {
        let w = Walk {
            doc: Doc {
                scroll_name: None,
                workspace: None,
                workspace_repo: None,
                workspace_branch: None,
                tasks: Vec::new(),
                thresholds: Vec::new(),
            },
            scope: Scope::PreTask,
            current: None,
            prompt: String::new(),
            h1: None,
            h2: None,
            in_item: false,
            item: String::new(),
        };
        assert(w@.doc.tasks =~= Seq::<TaskView>::empty());
        assert(w@.doc.thresholds =~= Seq::<(Seq<char>, Seq<char>)>::empty());
        w
    }

    fn finalize_task(&mut self)
        ensures
            final(self)@ == close_task(old(self)@),
    {
        match self.current.take() {
            Some(task) => {
                let mut task = task;
                task.prompt = trim(self.prompt.as_str());
                let ghost before = self.doc.tasks@;
                self.doc.tasks.push(task);
                assert(tasks_view(self.doc.tasks@) =~= tasks_view(before).push(task@));
            },
            None => {},
        }
        self.prompt = String::new();
        assert(self@ =~= close_task(old(self)@));
    }

    fn end_item(&mut self)
        ensures
            final(self)@ == close_item(old(self)@),
    {
        self.in_item = false;
        let line = trim(self.item.as_str());
        match self.scope {
            Scope::PreTask => {
                apply_workspace_directive(line.as_str(), &mut self.doc);
            },
            Scope::InTask { metadata_open: true } => {
                match self.current.take() {
                    Some(task) => {
                        let mut task = task;
                        let threshold = apply_task_metadata(line.as_str(), &mut task);
                        if let Some(value) = threshold {
                            let ghost before = self.doc.thresholds@;
                            let entry = ThresholdLine { task: task.name.clone(), value };
                            self.doc.thresholds.push(entry);
                            assert(thresholds_view(self.doc.thresholds@) =~= thresholds_view(
                                before,
                            ).push((entry.task@, entry.value@)));
                        }
                        self.current = Some(task);
                    },
                    None => {},
                }
            },
            Scope::InTask { metadata_open: false } => {
                // List items after prompt text begins are part of the prompt.
                if self.prompt.as_str().is_empty() {
                    self.prompt.append("- ");
                } else {
                    self.prompt.append("\n- ");
                }
                self.prompt.append(line.as_str());
            },
        }
        assert(self@ =~= close_item(old(self)@));
    }

    fn text(&mut self, t: &str)
        ensures
            final(self)@ == take_text(old(self)@, t@),
    {
        match self.h1.take() {
            Some(buf) => {
                let mut buf = buf;
                buf.append(t);
                self.h1 = Some(buf);
            },
            None => {
                match self.h2.take() {
                    Some(buf) => {
                        let mut buf = buf;
                        buf.append(t);
                        self.h2 = Some(buf);
                    },
                    None => {
                        if self.in_item {
                            self.item.append(t);
                        } else if self.scope == (Scope::InTask { metadata_open: false }) {
                            self.prompt.append(t);
                        }
                    },
                }
            },
        }
        assert(self@ =~= take_text(old(self)@, t@));
    }

    fn line_break(&mut self)
        ensures
            final(self)@ == take_break(old(self)@),
    {
        if self.in_item {
            self.item.push(' ');
        } else if self.scope == (Scope::InTask { metadata_open: false }) {
            self.prompt.push('\n');
        }
        assert(self@ =~= take_break(old(self)@));
    }

    fn end_heading(&mut self, level: u8)
        ensures
            final(self)@ == step(old(self)@, MdView::EndHeading(level)),
    {
        if level == 1 {
            if let Some(raw) = self.h1.take() {
                if self.doc.scroll_name.is_none() {
                    let bare = strip_leading(trim(raw.as_str()), "Scroll:");
                    self.doc.scroll_name = Some(trim(bare.as_str()));
                }
            }
        } else if level == 2 {
            if let Some(raw) = self.h2.take() {
                let heading = trim(raw.as_str());
                if let Some(name) = value_after(heading.as_str(), "Task:") {
                    if !name.as_str().is_empty() {
                        let task = TaskSpec {
                            name,
                            prompt: String::new(),
                            provider: None,
                            model: None,
                            cwd: None,
                            file_patterns: Vec::new(),
                            depends_on: Vec::new(),
                            peer: None,
                            verify: None,
                            verify_threshold: None,
                        };
                        assert(task@ =~= new_task(task.name@));
                        self.current = Some(task);
                        self.scope = Scope::InTask { metadata_open: true };
                    }
                }
            }
        }
        assert(self@ =~= step(old(self)@, MdView::EndHeading(level)));
    }

    fn step(&mut self, ev: &MdEvent)
        ensures
            final(self)@ == step(old(self)@, ev@),
    {
        match ev {
            MdEvent::StartHeading(level) => {
                if *level == 1 {
                    self.h1 = Some(String::new());
                } else if *level == 2 {
                    // Close any in-flight task; the scope is open again only
                    // once the heading proves to be a task's.
                    self.finalize_task();
                    self.scope = Scope::PreTask;
                    self.h2 = Some(String::new());
                }
            },
            MdEvent::EndHeading(level) => {
                self.end_heading(*level);
            },
            MdEvent::StartItem => {
                self.in_item = true;
                self.item = String::new();
            },
            MdEvent::EndItem => {
                self.end_item();
            },
            MdEvent::StartParagraph => {
                if let Scope::InTask { .. } = self.scope {
                    self.scope = Scope::InTask { metadata_open: false };
                    if !self.prompt.as_str().is_empty() {
                        self.prompt.append("\n\n");
                    }
                }
            },
            MdEvent::Text(t) => {
                self.text(t.as_str());
            },
            MdEvent::Code(t) => {
                self.text(t.as_str());
            },
            MdEvent::SoftBreak => {
                self.line_break();
            },
            MdEvent::HardBreak => {
                self.line_break();
            },
            MdEvent::Other => {},
        }
        assert(self@ =~= step(old(self)@, ev@));
    }
}

/// Reads the document that `events` add up to.
pub fn walk_events(events: &Vec<MdEvent>) -> (doc: Doc)
    ensures
        doc@ == doc_of(events_view(events@)),
{
    let mut w = Walk::start();
    for i in 0..events.len()
        invariant
            w@ == steps(events_view(events@).take(i as int)),
    {
        w.step(&events[i]);
        proof {
            let now = events_view(events@).take(i + 1);
            assert(now.drop_last() =~= events_view(events@).take(i as int));
            assert(now.last() == events@[i as int]@);
        }
    }
    assert(events_view(events@).take(events@.len() as int) =~= events_view(events@));
    w.finalize_task();
    w.doc
}

/// Reads the document that the markdown text `content` describes.
pub fn walk(content: &str) -> (doc: Doc)
    ensures
        doc@ == doc_of(markdown(content@)),
{
    let events = markdown_events(content);
    walk_events(&events)
}

// ---------------------------------------------------------------------------
// Acceptance
// ---------------------------------------------------------------------------

/// What a caller made of a `verify_threshold:` text, read as a floating-point
/// number.
#[derive(Debug)]
pub enum Judgement {
    /// A number between 0 and 1.
    Within,
    NotANumber,
    /// Any other number, as it is shown to people.
    OutOfRange { shown: String },
}

/// Why a document is no scroll.
#[derive(Debug)]
pub enum ScrollError {
    ThresholdNotANumber { task: String, value: String },
    ThresholdOutOfRange { task: String, shown: String },
    MissingHeading,
    EmptyName,
    NoTasks,
    NoTaskText { task: String },
    UnknownDependency { task: String, dependency: String, available: Vec<String> },
    SelfDependency { task: String },
}

/// What a [`ScrollError`] says.
pub ghost enum ScrollFault {
    ThresholdNotANumber { task: Seq<char>, value: Seq<char> },
    ThresholdOutOfRange { task: Seq<char>, shown: Seq<char> },
    MissingHeading,
    EmptyName,
    NoTasks,
    NoTaskText { task: Seq<char> },
    UnknownDependency { task: Seq<char>, dependency: Seq<char>, available: Seq<Seq<char>> },
    SelfDependency { task: Seq<char> },
}

impl View for ScrollError {
    type V = ScrollFault;

    open spec fn view(&self) -> ScrollFault {
        match self {
            ScrollError::ThresholdNotANumber { task, value } => {
                ScrollFault::ThresholdNotANumber { task: task@, value: value@ }
            },
            ScrollError::ThresholdOutOfRange { task, shown } => {
                ScrollFault::ThresholdOutOfRange { task: task@, shown: shown@ }
            },
            ScrollError::MissingHeading => ScrollFault::MissingHeading,
            ScrollError::EmptyName => ScrollFault::EmptyName,
            ScrollError::NoTasks => ScrollFault::NoTasks,
            ScrollError::NoTaskText { task } => ScrollFault::NoTaskText { task: task@ },
            ScrollError::UnknownDependency { task, dependency, available } => {
                ScrollFault::UnknownDependency {
                    task: task@,
                    dependency: dependency@,
                    available: texts(available@),
                }
            },
            ScrollError::SelfDependency { task } => ScrollFault::SelfDependency { task: task@ },
        }
    }
}

/// The first threshold line at or after `i` that is not within bounds.
pub open spec fn threshold_fault(
    lines: Seq<(Seq<char>, Seq<char>)>,
    judged: Seq<Judgement>,
    i: int,
) -> Option<ScrollFault>
    decreases lines.len() - i,
{
    if i < 0 || i >= lines.len() {
        None
    } else {
        match judged[i] {
            Judgement::Within => threshold_fault(lines, judged, i + 1),
            Judgement::NotANumber => Some(
                ScrollFault::ThresholdNotANumber { task: lines[i].0, value: lines[i].1 },
            ),
            Judgement::OutOfRange { shown } => Some(
                ScrollFault::ThresholdOutOfRange { task: lines[i].0, shown: shown@ },
            ),
        }
    }
}

/// The names of the tasks, in order.
pub open spec fn names(tasks: Seq<TaskView>) -> Seq<Seq<char>> {
    tasks.map_values(|t: TaskView| t.name)
}

/// The first task at or after `i` that has no prompt.
pub open spec fn prompt_fault(tasks: Seq<TaskView>, i: int) -> Option<ScrollFault>
    decreases tasks.len() - i,
{
    if i < 0 || i >= tasks.len() {
        None
    } else if tasks[i].prompt.len() == 0 {
        Some(ScrollFault::NoTaskText { task: tasks[i].name })
    } else {
        prompt_fault(tasks, i + 1)
    }
}

/// The first dependency of `t` at or after `j` that names no task.
pub open spec fn missing_dependency(t: TaskView, available: Seq<Seq<char>>, j: int) -> Option<
    ScrollFault,
>
    decreases t.depends_on.len() - j,
{
    if j < 0 || j >= t.depends_on.len() {
        None
    } else if !available.contains(t.depends_on[j]) {
        Some(
            ScrollFault::UnknownDependency {
                task: t.name,
                dependency: t.depends_on[j],
                available,
            },
        )
    } else {
        missing_dependency(t, available, j + 1)
    }
}

/// What is wrong with the dependencies of `t`: one that names no task comes
/// before the one on itself.
pub open spec fn task_fault(t: TaskView, available: Seq<Seq<char>>) -> Option<ScrollFault> {
    match missing_dependency(t, available, 0) {
        Some(f) => Some(f),
        None => if t.depends_on.contains(t.name) {
            Some(ScrollFault::SelfDependency { task: t.name })
        } else {
            None
        },
    }
}

/// What is wrong with the dependencies of the first task at or after `i`
/// of which something is.
pub open spec fn dependency_fault(tasks: Seq<TaskView>, i: int) -> Option<ScrollFault>
    decreases tasks.len() - i,
{
    if i < 0 || i >= tasks.len() {
        None
    } else {
        match task_fault(tasks[i], names(tasks)) {
            Some(f) => Some(f),
            None => dependency_fault(tasks, i + 1),
        }
    }
}

/// The first thing wrong with a document, if anything is.
pub open spec fn fault(d: DocView) -> Option<ScrollFault> {
    match d.scroll_name {
        None => Some(ScrollFault::MissingHeading),
        Some(name) => if name.len() == 0 {
            Some(ScrollFault::EmptyName)
        } else if d.tasks.len() == 0 {
            Some(ScrollFault::NoTasks)
        } else {
            match prompt_fault(d.tasks, 0) {
                Some(f) => Some(f),
                None => dependency_fault(d.tasks, 0),
            }
        },
    }
}

/// Whether `spec` holds what `d` does.
pub open spec fn spec_holds(spec: ScrollSpec, d: DocView) -> bool {
    &&& Some(spec.name@) == d.scroll_name
    &&& tasks_view(spec.tasks@) == d.tasks
    &&& opt_text(spec.workspace) == d.workspace
    &&& opt_text(spec.workspace_repo) == d.workspace_repo
    &&& opt_text(spec.workspace_branch) == d.workspace_branch
}

fn task_names(tasks: &Vec<TaskSpec>) -> (r: Vec<String>)
    ensures
        texts(r@) == names(tasks_view(tasks@)),
{
    let mut r: Vec<String> = Vec::new();
    for i in 0..tasks.len()
        invariant
            r@.len() == i,
            forall|j: int| 0 <= j < i ==> (#[trigger] r@[j])@ == tasks@[j].name@,
    {
        r.push(tasks[i].name.clone());
    }
    assert(texts(r@) =~= names(tasks_view(tasks@)));
    r
}

fn check_prompts(tasks: &Vec<TaskSpec>) -> (r: Option<ScrollError>)
    ensures
        match r {
            Some(e) => prompt_fault(tasks_view(tasks@), 0) == Some(e@),
            None => prompt_fault(tasks_view(tasks@), 0) is None,
        },
{
    let mut i: usize = 0;
    while i < tasks.len()
        invariant
            i <= tasks@.len(),
            prompt_fault(tasks_view(tasks@), 0) == prompt_fault(tasks_view(tasks@), i as int),
        decreases tasks@.len() - i,
    {
        assert(tasks_view(tasks@)[i as int] == tasks@[i as int]@);
        if tasks[i].prompt.as_str().is_empty() {
            return Some(ScrollError::NoTaskText { task: tasks[i].name.clone() });
        }
        i = i + 1;
    }
    None
}

fn check_task(task: &TaskSpec, available: &Vec<String>) -> (r: Option<ScrollError>)
    ensures
        match r {
            Some(e) => task_fault(task@, texts(available@)) == Some(e@),
            None => task_fault(task@, texts(available@)) is None,
        },
{
    let mut j: usize = 0;
    while j < task.depends_on.len()
        invariant
            j <= task.depends_on@.len(),
            missing_dependency(task@, texts(available@), 0) == missing_dependency(
                task@,
                texts(available@),
                j as int,
            ),
        decreases task.depends_on@.len() - j,
    {
        assert(task@.depends_on[j as int] == task.depends_on@[j as int]@);
        if !holds(available, task.depends_on[j].as_str()) {
            let e = ScrollError::UnknownDependency {
                task: task.name.clone(),
                dependency: task.depends_on[j].clone(),
                available: copy_texts(available),
            };
            return Some(e);
        }
        j = j + 1;
    }
    if holds(&task.depends_on, task.name.as_str()) {
        Some(ScrollError::SelfDependency { task: task.name.clone() })
    } else {
        None
    }
}

fn check_dependencies(tasks: &Vec<TaskSpec>) -> (r: Option<ScrollError>)
    ensures
        match r {
            Some(e) => dependency_fault(tasks_view(tasks@), 0) == Some(e@),
            None => dependency_fault(tasks_view(tasks@), 0) is None,
        },
{
    let available = task_names(tasks);
    let mut i: usize = 0;
    while i < tasks.len()
        invariant
            i <= tasks@.len(),
            texts(available@) == names(tasks_view(tasks@)),
            dependency_fault(tasks_view(tasks@), 0) == dependency_fault(
                tasks_view(tasks@),
                i as int,
            ),
        decreases tasks@.len() - i,
    {
        assert(tasks_view(tasks@)[i as int] == tasks@[i as int]@);
        if let Some(e) = check_task(&tasks[i], &available) {
            return Some(e);
        }
        i = i + 1;
    }
    None
}

/// Accepts a document whose thresholds are sound, or says the first thing
/// wrong with it.
fn accept(doc: Doc) -> (r: Result<ScrollSpec, ScrollError>)
    ensures
        match r {
            Ok(spec) => fault(doc@) is None && spec_holds(spec, doc@),
            Err(e) => fault(doc@) == Some(e@),
        },
{
    let name = match doc.scroll_name {
        Some(name) => name,
        None => return Err(ScrollError::MissingHeading),
    };
    if name.as_str().is_empty() {
        return Err(ScrollError::EmptyName);
    }
    if doc.tasks.len() == 0 {
        return Err(ScrollError::NoTasks);
    }
    assert(tasks_view(doc.tasks@).len() == doc.tasks@.len());
    if let Some(e) = check_prompts(&doc.tasks) {
        return Err(e);
    }
    if let Some(e) = check_dependencies(&doc.tasks) {
        return Err(e);
    }
    Ok(
        ScrollSpec {
            name,
            tasks: doc.tasks,
            workspace: doc.workspace,
            workspace_repo: doc.workspace_repo,
            workspace_branch: doc.workspace_branch,
        },
    )
}

fn check_thresholds(lines: &Vec<ThresholdLine>, judged: &Vec<Judgement>) -> (r: Option<ScrollError>)
    requires
        judged@.len() == lines@.len(),
    ensures
        match r {
            Some(e) => threshold_fault(thresholds_view(lines@), judged@, 0) == Some(e@),
            None => threshold_fault(thresholds_view(lines@), judged@, 0) is None,
        },
{
    let ghost all = thresholds_view(lines@);
    let mut i: usize = 0;
    while i < lines.len()
        invariant
            i <= lines@.len(),
            judged@.len() == lines@.len(),
            all == thresholds_view(lines@),
            threshold_fault(all, judged@, 0) == threshold_fault(all, judged@, i as int),
        decreases lines@.len() - i,
    {
        let line = &lines[i];
        assert(all[i as int] == (line.task@, line.value@));
        match &judged[i] {
            Judgement::Within => {},
            Judgement::NotANumber => {
                return Some(
                    ScrollError::ThresholdNotANumber {
                        task: line.task.clone(),
                        value: line.value.clone(),
                    },
                );
            },
            Judgement::OutOfRange { shown } => {
                return Some(
                    ScrollError::ThresholdOutOfRange {
                        task: line.task.clone(),
                        shown: shown.clone(),
                    },
                );
            },
        }
        i = i + 1;
    }
    None
}

/// Accepts a document whose threshold lines were judged, or says the first
/// thing wrong with it. A bad threshold comes before all else.
pub fn accept_judged(doc: Doc, judged: &Vec<Judgement>) -> (r: Result<ScrollSpec, ScrollError>)
    requires
        judged@.len() == doc.thresholds@.len(),
    ensures
        accepted(doc@, judged@, r),
{
    match check_thresholds(&doc.thresholds, judged) {
        Some(e) => Err(e),
        None => accept(doc),
    }
}

/// Whether `judged` is what `judge` makes of the text of each threshold line.
pub open spec fn judged_by<F: Fn(&str) -> Judgement>(
    judge: F,
    lines: Seq<(Seq<char>, Seq<char>)>,
    judged: Seq<Judgement>,
) -> bool {
    &&& judged.len() == lines.len()
    &&& forall|i: int|
        0 <= i < lines.len() ==> judges(judge, (#[trigger] lines[i]).1, judged[i])
}

/// Whether `judge` may make `j` of a text.
pub open spec fn judges<F: Fn(&str) -> Judgement>(judge: F, value: Seq<char>, j: Judgement) -> bool {
    exists|s: &str| s@ == value && #[trigger] call_ensures(judge, (s,), j)
}

fn judge_all<F: Fn(&str) -> Judgement>(lines: &Vec<ThresholdLine>, judge: F) -> (r: Vec<Judgement>)
    requires
        forall|s: &str| #[trigger] call_requires(judge, (s,)),
    ensures
        judged_by(judge, thresholds_view(lines@), r@),
{
    let ghost all = thresholds_view(lines@);
    let mut r: Vec<Judgement> = Vec::new();
    for i in 0..lines.len()
        invariant
            all == thresholds_view(lines@),
            forall|s: &str| #[trigger] call_requires(judge, (s,)),
            r@.len() == i,
            forall|k: int| 0 <= k < i ==> judges(judge, (#[trigger] all[k]).1, r@[k]),
    {
        let s: &str = lines[i].value.as_str();
        let j = judge(s);
        assert(call_ensures(judge, (s,), j));
        assert(all[i as int].1 == s@);
        assert(judges(judge, all[i as int].1, j));
        r.push(j);
    }
    r
}

/// What becomes of a document: the first threshold that is not within bounds
/// comes before all else that may be wrong with it.
pub open spec fn accepted(d: DocView, judged: Seq<Judgement>, r: Result<ScrollSpec, ScrollError>) -> bool {
    match threshold_fault(d.thresholds, judged, 0) {
        Some(f) => r matches Err(e) && e@ == f,
        None => match r {
            Ok(spec) => fault(d) is None && spec_holds(spec, d),
            Err(e) => fault(d) == Some(e@),
        },
    }
}

/// Parses a markdown spec file into a [`ScrollSpec`].
///
/// Expected format:
/// ```markdown
/// # Scroll: My Project
/// - workspace: my-workspace
///
/// ## Task: Task Name
/// - files: src/foo.rs, src/bar.rs
/// - depends: Other Task
/// - provider: aider
///
/// The actual task prompt goes here...
/// ```
///
/// A `verify_threshold:` must be a number between 0 and 1. To say whether a
/// text is one takes floating point, so the caller hands that in as `judge`.
pub fn parse_scroll<F: Fn(&str) -> Judgement>(content: &str, judge: F) -> (r: Result<
    ScrollSpec,
    ScrollError,
>)
    requires
        forall|s: &str| #[trigger] call_requires(judge, (s,)),
    ensures
        exists|judged: Seq<Judgement>| #[trigger]
            judged_by(judge, doc_of(markdown(content@)).thresholds, judged) && accepted(
                doc_of(markdown(content@)),
                judged,
                r,
            ),
{
    let doc = walk(content);
    let judged = judge_all(&doc.thresholds, judge);
    assert(judged_by(judge, doc@.thresholds, judged@));
    accept_judged(doc, &judged)
}

// ---------------------------------------------------------------------------
// Messages
// ---------------------------------------------------------------------------

/// A list of strings as `std`'s `{:?}` writes it.
pub uninterp spec fn quoted_list(list: Seq<Seq<char>>) -> Seq<char>;

/// Writes a list of strings with `format!` and `{:?}`. The text is a function
/// of the strings alone; how they are escaped is not said further.
#[verifier::external_body]
fn write_quoted_list(list: &Vec<String>) -> (r: String)
    ensures
        r@ == quoted_list(texts(list@)),
{
    format!("{:?}", list)
}

/// The message of a fault.
pub open spec fn fault_message(f: ScrollFault) -> Seq<char> {
    match f {
        ScrollFault::ThresholdNotANumber { task, value } => "Task '"@ + task
            + "': verify_threshold '"@ + value + "' is not a number between 0.0 and 1.0"@,
        ScrollFault::ThresholdOutOfRange { task, shown } => "Task '"@ + task
            + "': verify_threshold "@ + shown + " is out of range (expected 0.0-1.0)"@,
        ScrollFault::MissingHeading => "Spec must start with a '# Scroll: <name>' heading"@,
        ScrollFault::EmptyName => "Scroll name cannot be empty"@,
        ScrollFault::NoTasks => "Scroll must contain at least one '## Task:' section"@,
        ScrollFault::NoTaskText { task } => "Task '"@ + task
            + "' has no task text. Add task description after the metadata lines."@,
        ScrollFault::UnknownDependency { task, dependency, available } => "Task '"@ + task
            + "' depends on '"@ + dependency + "' which doesn't exist. Available: "@ + quoted_list(
            available,
        ),
        ScrollFault::SelfDependency { task } => "Task '"@ + task + "' cannot depend on itself"@,
    }
}

impl ScrollError {
    /// The error as a message for people.
    pub fn to_text(&self) -> (r: String)
        ensures
            r@ == fault_message(self@),
    {
        match self {
            ScrollError::ThresholdNotANumber { task, value } => {
                let mut r = own("Task '");
                r.append(task.as_str());
                r.append("': verify_threshold '");
                r.append(value.as_str());
                r.append("' is not a number between 0.0 and 1.0");
                r
            },
            ScrollError::ThresholdOutOfRange { task, shown } => {
                let mut r = own("Task '");
                r.append(task.as_str());
                r.append("': verify_threshold ");
                r.append(shown.as_str());
                r.append(" is out of range (expected 0.0-1.0)");
                r
            },
            ScrollError::MissingHeading => own("Spec must start with a '# Scroll: <name>' heading"),
            ScrollError::EmptyName => own("Scroll name cannot be empty"),
            ScrollError::NoTasks => own("Scroll must contain at least one '## Task:' section"),
            ScrollError::NoTaskText { task } => {
                let mut r = own("Task '");
                r.append(task.as_str());
                r.append("' has no task text. Add task description after the metadata lines.");
                r
            },
            ScrollError::UnknownDependency { task, dependency, available } => {
                let mut r = own("Task '");
                r.append(task.as_str());
                r.append("' depends on '");
                r.append(dependency.as_str());
                r.append("' which doesn't exist. Available: ");
                r.append(write_quoted_list(available).as_str());
                r
            },
            ScrollError::SelfDependency { task } => {
                let mut r = own("Task '");
                r.append(task.as_str());
                r.append("' cannot depend on itself");
                r
            },
        }
    }
}

// ---------------------------------------------------------------------------
// Laws
// ---------------------------------------------------------------------------

/// What a scroll must be: named, with a task at least, each with a prompt and
/// with dependencies among the other tasks.
pub open spec fn well_formed(d: DocView) -> bool {
    &&& d.scroll_name matches Some(name) && name.len() > 0
    &&& d.tasks.len() > 0
    &&& forall|i: int| 0 <= i < d.tasks.len() ==> (#[trigger] d.tasks[i]).prompt.len() > 0
    &&& forall|i: int| 0 <= i < d.tasks.len() ==> sound_dependencies(#[trigger] d.tasks[i], names(d.tasks))
}

/// Whether every dependency of `t` names a task, and none names `t`.
pub open spec fn sound_dependencies(t: TaskView, available: Seq<Seq<char>>) -> bool {
    &&& forall|j: int|
        0 <= j < t.depends_on.len() ==> available.contains(#[trigger] t.depends_on[j])
    &&& !t.depends_on.contains(t.name)
}

proof fn lemma_prompt_fault(tasks: Seq<TaskView>, i: int)
    requires
        0 <= i <= tasks.len(),
    ensures
        prompt_fault(tasks, i) is None <==> forall|k: int|
            i <= k < tasks.len() ==> (#[trigger] tasks[k]).prompt.len() > 0,
    decreases tasks.len() - i,
{
    if i < tasks.len() {
        lemma_prompt_fault(tasks, i + 1);
    }
}

proof fn lemma_missing_dependency(t: TaskView, available: Seq<Seq<char>>, j: int)
    requires
        0 <= j <= t.depends_on.len(),
    ensures
        missing_dependency(t, available, j) is None <==> forall|k: int|
            j <= k < t.depends_on.len() ==> available.contains(#[trigger] t.depends_on[k]),
    decreases t.depends_on.len() - j,
{
    if j < t.depends_on.len() {
        lemma_missing_dependency(t, available, j + 1);
    }
}

proof fn lemma_dependency_fault(tasks: Seq<TaskView>, i: int)
    requires
        0 <= i <= tasks.len(),
    ensures
        dependency_fault(tasks, i) is None <==> forall|k: int|
            i <= k < tasks.len() ==> sound_dependencies(#[trigger] tasks[k], names(tasks)),
    decreases tasks.len() - i,
{
    if i < tasks.len() {
        lemma_dependency_fault(tasks, i + 1);
        lemma_missing_dependency(tasks[i], names(tasks), 0);
        assert(task_fault(tasks[i], names(tasks)) is None <==> sound_dependencies(
            tasks[i],
            names(tasks),
        ));
    }
}

/// A document is accepted exactly when it is well formed: every dependency of
/// an accepted scroll names one of its tasks, no task depends on itself, and
/// no prompt is empty.
pub proof fn accepted_iff_well_formed(d: DocView)
    ensures
        fault(d) is None <==> well_formed(d),
{
    lemma_prompt_fault(d.tasks, 0);
    lemma_dependency_fault(d.tasks, 0);
}

/// The first `#` heading names the scroll: no later event changes the name.
pub proof fn first_heading_names_scroll(events: Seq<MdView>, more: Seq<MdView>)
    requires
        steps(events).doc.scroll_name is Some,
    ensures
        steps(events + more).doc.scroll_name == steps(events).doc.scroll_name,
    decreases more.len(),
{
    if more.len() == 0 {
        assert(events + more =~= events);
    } else {
        first_heading_names_scroll(events, more.drop_last());
        assert((events + more).drop_last() =~= events + more.drop_last());
        assert((events + more).last() == more.last());
    }
}

/// Tasks keep the order of their sections: later events only add tasks.
pub proof fn tasks_in_document_order(events: Seq<MdView>, more: Seq<MdView>)
    ensures
        steps(events).doc.tasks.is_prefix_of(steps(events + more).doc.tasks),
    decreases more.len(),
{
    if more.len() == 0 {
        assert(events + more =~= events);
    } else {
        tasks_in_document_order(events, more.drop_last());
        assert((events + more).drop_last() =~= events + more.drop_last());
        let a = steps(events).doc.tasks;
        let b = steps(events + more.drop_last()).doc.tasks;
        let c = steps(events + more).doc.tasks;
        assert(b.is_prefix_of(c)) by {
            assert(b =~= c || b =~= c.drop_last());
        }
        assert(a =~= c.subrange(0, a.len() as int));
    }
}

/// Whether the task that is open, and every task so far, has a name.
pub open spec fn all_named(w: WalkView) -> bool {
    &&& w.current matches Some(t) ==> t.name.len() > 0
    &&& forall|i: int| 0 <= i < w.doc.tasks.len() ==> (#[trigger] w.doc.tasks[i]).name.len() > 0
}

/// Every task of a document has a name.
pub proof fn tasks_are_named(events: Seq<MdView>)
    ensures
        all_named(steps(events)),
        forall|i: int|
            0 <= i < doc_of(events).tasks.len() ==> (#[trigger] doc_of(events).tasks[i]).name.len()
                > 0,
    decreases events.len(),
{
    if events.len() > 0 {
        tasks_are_named(events.drop_last());
    }
}

/// Whether a threshold of a task stands among the lines that are judged.
pub open spec fn threshold_noted(t: TaskView, lines: Seq<(Seq<char>, Seq<char>)>) -> bool {
    t.verify_threshold matches Some(v) ==> lines.contains((t.name, v))
}

/// Whether the thresholds of the open task, and of every task so far, are
/// noted.
pub open spec fn all_noted(w: WalkView) -> bool {
    &&& w.current matches Some(t) ==> threshold_noted(t, w.doc.thresholds)
    &&& forall|i: int|
        0 <= i < w.doc.tasks.len() ==> threshold_noted(#[trigger] w.doc.tasks[i], w.doc.thresholds)
}

proof fn lemma_noted_step(w: WalkView, e: MdView)
    requires
        all_noted(w),
    ensures
        all_noted(step(w, e)),
{
    let after = step(w, e);
    let old_lines = w.doc.thresholds;
    let lines = after.doc.thresholds;
    assert forall|t: TaskView| threshold_noted(t, old_lines) implies #[trigger] threshold_noted(
        t,
        lines,
    ) by {
        if let Some(v) = t.verify_threshold {
            let k = old_lines.index_of((t.name, v));
            assert(lines[k] == (t.name, v));
        }
    }
    if let MdView::EndItem = e {
        if let Some(t) = w.current {
            if w.scope == (Scope::InTask { metadata_open: true }) {
                let line = trimmed(w.item);
                let now = with_metadata(t, line);
                assert(now.name == t.name);
                if let Some(v) = threshold_of(line) {
                    assert(now.verify_threshold == Some(v));
                    assert(lines.last() == (t.name, v));
                } else {
                    assert(now.verify_threshold == t.verify_threshold);
                }
                assert(threshold_noted(now, lines));
            }
        }
    }
    if let MdView::StartHeading(n) = e {
        if n == 2 {
            let tasks = after.doc.tasks;
            assert forall|i: int| 0 <= i < tasks.len() implies threshold_noted(
                #[trigger] tasks[i],
                lines,
            ) by {
                if i < w.doc.tasks.len() {
                    assert(tasks[i] == w.doc.tasks[i]);
                }
            }
        }
    }
}

proof fn lemma_all_noted(events: Seq<MdView>)
    ensures
        all_noted(steps(events)),
    decreases events.len(),
{
    if events.len() > 0 {
        lemma_all_noted(events.drop_last());
        lemma_noted_step(steps(events.drop_last()), events.last());
    }
}

proof fn lemma_threshold_fault(lines: Seq<(Seq<char>, Seq<char>)>, judged: Seq<Judgement>, i: int)
    requires
        0 <= i <= lines.len(),
        judged.len() == lines.len(),
    ensures
        threshold_fault(lines, judged, i) is None <==> forall|k: int|
            i <= k < lines.len() ==> (#[trigger] judged[k]) is Within,
    decreases lines.len() - i,
{
    if i < lines.len() {
        lemma_threshold_fault(lines, judged, i + 1);
    }
}

/// Every threshold of an accepted scroll was judged to be within bounds.
pub proof fn accepted_thresholds_are_within(
    events: Seq<MdView>,
    judged: Seq<Judgement>,
    spec: ScrollSpec,
    i: int,
)
    requires
        judged.len() == doc_of(events).thresholds.len(),
        accepted(doc_of(events), judged, Ok(spec)),
        0 <= i < spec.tasks@.len(),
        spec.tasks@[i].verify_threshold is Some,
    ensures
        exists|k: int|
            0 <= k < judged.len() && #[trigger] doc_of(events).thresholds[k] == (
                spec.tasks@[i].name@,
                spec.tasks@[i].verify_threshold->0@,
            ) && judged[k] is Within,
{
    let d = doc_of(events);
    let w = steps(events);
    lemma_all_noted(events);
    lemma_threshold_fault(d.thresholds, judged, 0);
    let t = d.tasks[i];
    assert(t == tasks_view(spec.tasks@)[i]);
    assert(threshold_noted(t, d.thresholds)) by {
        if i < w.doc.tasks.len() {
            assert(t == w.doc.tasks[i]);
        }
    }
    let k = d.thresholds.index_of((t.name, t.verify_threshold->0));
    assert(judged[k] is Within);
}

} // verus!
