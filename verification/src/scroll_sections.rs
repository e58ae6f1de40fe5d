//! What the sections of a scroll become: which task each is, what its prompt
//! holds, and what its metadata sets.

use crate::pieces::{joined, joined_pieces_come_apart};
use crate::scroll_parser::{
    close_task, csv, doc_of, fault, kept, new_task, scroll_name, step, steps, task_name,
    threshold_of, value_of, with_directive, with_metadata, without_leading, DocView, MdView, Scope,
    ScrollFault, TaskView, WalkView,
};
use crate::text::{trimmed, trimmed_texts_stay, white};
use vstd::prelude::*;

verus! {

// ---------------------------------------------------------------------------
// Runs of events
// ---------------------------------------------------------------------------

/// The walk that stood at `w`, after more events.
pub open spec fn run(w: WalkView, events: Seq<MdView>) -> WalkView
    decreases events.len(),
{
    if events.len() == 0 {
        w
    } else {
        step(run(w, events.drop_last()), events.last())
    }
}

proof fn lemma_run(events: Seq<MdView>, more: Seq<MdView>)
    ensures
        steps(events + more) == run(steps(events), more),
    decreases more.len(),
{
    if more.len() == 0 {
        assert(events + more =~= events);
    } else {
        lemma_run(events, more.drop_last());
        assert((events + more).drop_last() =~= events + more.drop_last());
        assert((events + more).last() == more.last());
    }
}

proof fn lemma_run_more(w: WalkView, a: Seq<MdView>, b: Seq<MdView>)
    ensures
        run(w, a + b) == run(run(w, a), b),
    decreases b.len(),
{
    if b.len() == 0 {
        assert(a + b =~= a);
    } else {
        lemma_run_more(w, a, b.drop_last());
        assert((a + b).drop_last() =~= a + b.drop_last());
        assert((a + b).last() == b.last());
    }
}

proof fn lemma_run_three(w: WalkView, x: MdView, y: MdView, z: MdView)
    ensures
        run(w, seq![x, y, z]) == step(step(step(w, x), y), z),
{
    let e = seq![x, y, z];
    assert(e.drop_last() =~= seq![x, y]);
    assert(seq![x, y].drop_last() =~= seq![x]);
    assert(seq![x].drop_last() =~= Seq::<MdView>::empty());
    reveal_with_fuel(run, 4);
}

/// The events of a heading with the text `t`.
pub open spec fn heading(level: u8, t: Seq<char>) -> Seq<MdView> {
    seq![MdView::StartHeading(level), MdView::Text(t), MdView::EndHeading(level)]
}

/// The events of a list item of one line.
pub open spec fn item(line: Seq<char>) -> Seq<MdView> {
    seq![MdView::StartItem, MdView::Text(line), MdView::EndItem]
}

/// The events of list items of one line each.
pub open spec fn items(lines: Seq<Seq<char>>) -> Seq<MdView>
    decreases lines.len(),
{
    if lines.len() == 0 {
        seq![]
    } else {
        items(lines.drop_last()) + item(lines.last())
    }
}

/// The events of a paragraph of one line.
pub open spec fn paragraph(t: Seq<char>) -> Seq<MdView> {
    seq![MdView::StartParagraph, MdView::Text(t), MdView::Other]
}

/// The events of paragraphs of one line each.
pub open spec fn paragraphs(list: Seq<Seq<char>>) -> Seq<MdView>
    decreases list.len(),
{
    if list.len() == 0 {
        seq![]
    } else {
        paragraphs(list.drop_last()) + paragraph(list.last())
    }
}

/// Whether the walk stands between blocks: in no heading and in no item.
pub open spec fn between_blocks(w: WalkView) -> bool {
    w.h1 is None && w.h2 is None && !w.in_item
}

// ---------------------------------------------------------------------------
// Prompts
// ---------------------------------------------------------------------------

/// Once gathered, a prompt only grows: until the next second-level heading no
/// event takes anything from it.
pub proof fn prompts_only_grow(events: Seq<MdView>, more: Seq<MdView>)
    requires
        forall|i: int| 0 <= i < more.len() ==> #[trigger] more[i] != MdView::StartHeading(2),
    ensures
        steps(events).prompt.is_prefix_of(steps(events + more).prompt),
    decreases more.len(),
{
    if more.len() == 0 {
        assert(events + more =~= events);
        let p = steps(events).prompt;
        assert(p =~= p.subrange(0, p.len() as int));
    } else {
        let init = more.drop_last();
        assert forall|i: int| 0 <= i < init.len() implies #[trigger] init[i]
            != MdView::StartHeading(2) by {
            assert(init[i] == more[i]);
        }
        prompts_only_grow(events, init);
        assert((events + more).drop_last() =~= events + init);
        assert((events + more).last() == more.last());
        assert(more.last() == more[more.len() - 1]);
        let a = steps(events).prompt;
        let w = steps(events + init);
        let c = steps(events + more).prompt;
        assert(c == step(w, more.last()).prompt);
        assert(w.prompt.is_prefix_of(c)) by {
            assert(w.prompt =~= c.subrange(0, w.prompt.len() as int));
        }
        assert(a =~= c.subrange(0, a.len() as int));
    }
}

/// Within a prompt, outside items and headings, text and code are taken in as
/// they are, and a break as a line feed; an item is taken in as a line of its
/// own after a dash.
pub proof fn prompts_take_everything_in(w: WalkView, t: Seq<char>)
    requires
        between_blocks(w),
        w.scope == (Scope::InTask { metadata_open: false }),
    ensures
        step(w, MdView::Text(t)).prompt == w.prompt + t,
        step(w, MdView::Code(t)).prompt == w.prompt + t,
        step(w, MdView::SoftBreak).prompt == w.prompt + seq!['\n'],
        step(w, MdView::HardBreak).prompt == w.prompt + seq!['\n'],
        step(w, MdView::Other).prompt == w.prompt,
        w.prompt.len() > 0 ==> step(w, MdView::StartParagraph).prompt == w.prompt + "\n\n"@,
        w.prompt.len() > 0 ==> run(w, item(t)).prompt == w.prompt + "\n- "@ + trimmed(t),
        w.prompt.len() == 0 ==> run(w, item(t)).prompt == "- "@ + trimmed(t),
{
    lemma_run_three(w, MdView::StartItem, MdView::Text(t), MdView::EndItem);
    assert(w.prompt.push('\n') =~= w.prompt + seq!['\n']);
    assert(Seq::<char>::empty() + t =~= t);
    if w.prompt.len() == 0 {
        assert(w.prompt + "- "@ =~= "- "@);
    }
}

/// Within an item or a heading, text and code go into that, in order.
pub proof fn items_and_headings_take_their_text(w: WalkView, t: Seq<char>)
    ensures
        w.h1 is Some ==> step(w, MdView::Text(t)).h1 == Some(w.h1->0 + t) && step(
            w,
            MdView::Code(t),
        ).h1 == Some(w.h1->0 + t),
        w.h1 is None && w.h2 is Some ==> step(w, MdView::Text(t)).h2 == Some(w.h2->0 + t)
            && step(w, MdView::Code(t)).h2 == Some(w.h2->0 + t),
        w.h1 is None && w.h2 is None && w.in_item ==> step(w, MdView::Text(t)).item == w.item + t
            && step(w, MdView::Code(t)).item == w.item + t && step(w, MdView::SoftBreak).item
            == w.item + seq![' '] && step(w, MdView::HardBreak).item == w.item + seq![' '],
{
    assert(w.item.push(' ') =~= w.item + seq![' ']);
}

/// The paragraphs of a section are its prompt, with a blank line between each
/// two, and nothing else changes with them.
pub proof fn paragraphs_are_the_prompt(w: WalkView, list: Seq<Seq<char>>)
    requires
        between_blocks(w),
        w.scope is InTask,
        w.prompt.len() == 0,
        list.len() > 0,
        forall|i: int| 0 <= i < list.len() ==> (#[trigger] list[i]).len() > 0,
    ensures
        run(w, paragraphs(list)) == (WalkView {
            prompt: joined(list, "\n\n"@),
            scope: Scope::InTask { metadata_open: false },
            ..w
        }),
        joined(list, "\n\n"@).len() > 0,
    decreases list.len(),
{
    let last = list.last();
    assert(last == list[list.len() - 1]);
    let init = list.drop_last();
    let open = Scope::InTask { metadata_open: false };
    lemma_run_more(w, paragraphs(init), paragraph(last));
    if init.len() == 0 {
        assert(paragraphs(init) =~= Seq::<MdView>::empty());
        assert(run(w, paragraphs(init)) == w);
        lemma_run_three(w, MdView::StartParagraph, MdView::Text(last), MdView::Other);
        assert(w.prompt + last =~= last);
        assert(joined(list, "\n\n"@) == last);
    } else {
        assert forall|i: int| 0 <= i < init.len() implies (#[trigger] init[i]).len() > 0 by {
            assert(init[i] == list[i]);
        }
        paragraphs_are_the_prompt(w, init);
        let v = run(w, paragraphs(init));
        lemma_run_three(v, MdView::StartParagraph, MdView::Text(last), MdView::Other);
        assert(joined(list, "\n\n"@) == joined(init, "\n\n"@) + "\n\n"@ + last);
    }
    assert(run(w, paragraphs(list)) =~= (WalkView {
        prompt: joined(list, "\n\n"@),
        scope: open,
        ..w
    }));
}

// ---------------------------------------------------------------------------
// Metadata
// ---------------------------------------------------------------------------

proof fn lemma_key(key: Seq<char>, v: Seq<char>)
    ensures
        key.is_prefix_of(key + v),
        (key + v).skip(key.len() as int) == v,
        value_of(key + v, key) == Some(trimmed(v)),
{
    assert(key =~= (key + v).subrange(0, key.len() as int));
    assert((key + v).skip(key.len() as int) =~= v);
}

proof fn lemma_other_key(key: Seq<char>, s: Seq<char>, i: int)
    requires
        0 <= i < key.len(),
        i < s.len() ==> key[i] != s[i],
    ensures
        !key.is_prefix_of(s),
        value_of(s, key) is None,
{
    if key.is_prefix_of(s) {
        assert(s.subrange(0, key.len() as int)[i] == s[i]);
    }
}

proof fn lemma_keys()
    ensures
        "files:"@ == seq!['f', 'i', 'l', 'e', 's', ':'],
        "depends:"@ == seq!['d', 'e', 'p', 'e', 'n', 'd', 's', ':'],
        "provider:"@ == seq!['p', 'r', 'o', 'v', 'i', 'd', 'e', 'r', ':'],
        "model:"@ == seq!['m', 'o', 'd', 'e', 'l', ':'],
        "cwd:"@ == seq!['c', 'w', 'd', ':'],
        "peer:"@ == seq!['p', 'e', 'e', 'r', ':'],
        "verify:"@ == seq!['v', 'e', 'r', 'i', 'f', 'y', ':'],
        "verify_threshold:"@.len() == 17,
        "verify_threshold:"@.take(7) == seq!['v', 'e', 'r', 'i', 'f', 'y', '_'],
{
    reveal_strlit("files:");
    reveal_strlit("depends:");
    reveal_strlit("provider:");
    reveal_strlit("model:");
    reveal_strlit("cwd:");
    reveal_strlit("peer:");
    reveal_strlit("verify:");
    reveal_strlit("verify_threshold:");
    assert("files:"@ =~= seq!['f', 'i', 'l', 'e', 's', ':']);
    assert("depends:"@ =~= seq!['d', 'e', 'p', 'e', 'n', 'd', 's', ':']);
    assert("provider:"@ =~= seq!['p', 'r', 'o', 'v', 'i', 'd', 'e', 'r', ':']);
    assert("model:"@ =~= seq!['m', 'o', 'd', 'e', 'l', ':']);
    assert("cwd:"@ =~= seq!['c', 'w', 'd', ':']);
    assert("peer:"@ =~= seq!['p', 'e', 'e', 'r', ':']);
    assert("verify:"@ =~= seq!['v', 'e', 'r', 'i', 'f', 'y', ':']);
    assert("verify_threshold:"@.take(7) =~= seq!['v', 'e', 'r', 'i', 'f', 'y', '_']);
}

/// A `provider:`, `model:` or `cwd:` line sets just that, trimmed.
pub proof fn plain_keys_set_their_field(t: TaskView, v: Seq<char>)
    ensures
        with_metadata(t, "provider:"@ + v) == (TaskView { provider: Some(trimmed(v)), ..t }),
        with_metadata(t, "model:"@ + v) == (TaskView { model: Some(trimmed(v)), ..t }),
        with_metadata(t, "cwd:"@ + v) == (TaskView { cwd: Some(trimmed(v)), ..t }),
        threshold_of("provider:"@ + v) is None,
        threshold_of("model:"@ + v) is None,
        threshold_of("cwd:"@ + v) is None,
{
    lemma_keys();
    let p = "provider:"@ + v;
    lemma_key("provider:"@, v);
    assert(p[0] == 'p');
    lemma_other_key("files:"@, p, 0);
    lemma_other_key("depends:"@, p, 0);
    let m = "model:"@ + v;
    lemma_key("model:"@, v);
    assert(m[0] == 'm');
    lemma_other_key("files:"@, m, 0);
    lemma_other_key("depends:"@, m, 0);
    lemma_other_key("provider:"@, m, 0);
    let c = "cwd:"@ + v;
    lemma_key("cwd:"@, v);
    assert(c[0] == 'c');
    lemma_other_key("files:"@, c, 0);
    lemma_other_key("depends:"@, c, 0);
    lemma_other_key("provider:"@, c, 0);
    lemma_other_key("model:"@, c, 0);
}

/// A `files:` or `depends:` line sets the list that it names, but that no
/// dependency is named by nothing, by `none` or by `(none)`.
pub proof fn list_keys_set_their_list(t: TaskView, v: Seq<char>)
    ensures
        with_metadata(t, "files:"@ + v) == (TaskView { file_patterns: csv(v), ..t }),
        trimmed(v).len() == 0 || trimmed(v) == "none"@ || trimmed(v) == "(none)"@ ==> with_metadata(
            t,
            "depends:"@ + v,
        ) == t,
        trimmed(v).len() > 0 && trimmed(v) != "none"@ && trimmed(v) != "(none)"@ ==> with_metadata(
            t,
            "depends:"@ + v,
        ) == (TaskView { depends_on: csv(trimmed(v)), ..t }),
        threshold_of("files:"@ + v) is None,
        threshold_of("depends:"@ + v) is None,
{
    lemma_keys();
    lemma_key("files:"@, v);
    let d = "depends:"@ + v;
    lemma_key("depends:"@, v);
    assert(d[0] == 'd');
    lemma_other_key("files:"@, d, 0);
}

/// A `peer:`, `verify:` or `verify_threshold:` line sets just that, trimmed;
/// an empty peer or rubric sets nothing. The threshold is handed on to be
/// judged.
pub proof fn optional_keys_set_their_field(t: TaskView, v: Seq<char>)
    ensures
        with_metadata(t, "peer:"@ + v) == (if trimmed(v).len() > 0 {
            TaskView { peer: Some(trimmed(v)), ..t }
        } else {
            t
        }),
        with_metadata(t, "verify:"@ + v) == (if trimmed(v).len() > 0 {
            TaskView { verify: Some(trimmed(v)), ..t }
        } else {
            t
        }),
        with_metadata(t, "verify_threshold:"@ + v) == (TaskView {
            verify_threshold: Some(trimmed(v)),
            ..t
        }),
        threshold_of("verify_threshold:"@ + v) == Some(trimmed(v)),
        threshold_of("verify:"@ + v) is None,
        threshold_of("peer:"@ + v) is None,
{
    lemma_keys();
    let p = "peer:"@ + v;
    lemma_key("peer:"@, v);
    assert(p[0] == 'p' && p[1] == 'e');
    lemma_other_key("files:"@, p, 0);
    lemma_other_key("depends:"@, p, 0);
    lemma_other_key("provider:"@, p, 1);
    lemma_other_key("model:"@, p, 0);
    lemma_other_key("cwd:"@, p, 0);
    let r = "verify:"@ + v;
    lemma_key("verify:"@, v);
    assert(r[0] == 'v' && r[6] == ':');
    assert("verify_threshold:"@.take(7)[6] == '_');
    lemma_not_plain(r);
    lemma_other_key("verify_threshold:"@, r, 6);
    let h = "verify_threshold:"@ + v;
    lemma_key("verify_threshold:"@, v);
    assert("verify_threshold:"@.take(7)[0] == 'v');
    assert(h[0] == 'v' && h[6] == '_');
    lemma_not_plain(h);
}

proof fn lemma_not_plain(s: Seq<char>)
    requires
        s.len() > 0,
        s[0] == 'v',
    ensures
        !"files:"@.is_prefix_of(s),
        !"depends:"@.is_prefix_of(s),
        !"provider:"@.is_prefix_of(s),
        !"model:"@.is_prefix_of(s),
        !"cwd:"@.is_prefix_of(s),
        !"peer:"@.is_prefix_of(s),
{
    lemma_keys();
    lemma_other_key("files:"@, s, 0);
    lemma_other_key("depends:"@, s, 0);
    lemma_other_key("provider:"@, s, 0);
    lemma_other_key("model:"@, s, 0);
    lemma_other_key("cwd:"@, s, 0);
    lemma_other_key("peer:"@, s, 0);
}

/// The entries of a list are what stands between its commas, trimmed, without
/// the empty ones; entries without commas and without white space at their
/// ends are read as they are.
pub proof fn lists_are_read(entries: Seq<Seq<char>>)
    requires
        entries.len() > 0,
        forall|k: int, i: int|
            0 <= k < entries.len() && 0 <= i < entries[k].len() ==> #[trigger] entries[k][i] != ',',
        forall|k: int|
            0 <= k < entries.len() ==> (#[trigger] entries[k]).len() > 0 && !white(entries[k][0])
                && !white(entries[k].last()),
    ensures
        csv(joined(entries, seq![','])) == entries,
{
    joined_pieces_come_apart(entries, ',');
    lemma_kept_all(entries);
}

proof fn lemma_kept_all(entries: Seq<Seq<char>>)
    requires
        forall|k: int|
            0 <= k < entries.len() ==> (#[trigger] entries[k]).len() > 0 && !white(entries[k][0])
                && !white(entries[k].last()),
    ensures
        kept(entries) == entries,
    decreases entries.len(),
{
    if entries.len() > 0 {
        let init = entries.drop_last();
        assert forall|k: int| 0 <= k < init.len() implies (#[trigger] init[k]).len() > 0 && !white(
            init[k][0],
        ) && !white(init[k].last()) by {
            assert(init[k] == entries[k]);
        }
        lemma_kept_all(init);
        assert(entries.last() == entries[entries.len() - 1]);
        trimmed_texts_stay(entries.last());
        assert(init.push(entries.last()) =~= entries);
    } else {
        assert(kept(entries) =~= entries);
    }
}

/// An entry of a list counts trimmed, and not at all where nothing is left.
pub proof fn entries_are_trimmed(parts: Seq<Seq<char>>, p: Seq<char>)
    ensures
        kept(parts.push(p)) == (if trimmed(p).len() > 0 {
            kept(parts).push(trimmed(p))
        } else {
            kept(parts)
        }),
        kept(seq![]).len() == 0,
{
    assert(parts.push(p).drop_last() =~= parts);
}

/// A workspace directive sets just what it names, and any other line nothing.
pub proof fn directives_set_their_field(d: DocView, v: Seq<char>)
    ensures
        with_directive(d, "workspace:"@ + v) == (DocView { workspace: Some(trimmed(v)), ..d }),
        with_directive(d, "workspace_repo:"@ + v) == (DocView {
            workspace_repo: Some(trimmed(v)),
            ..d
        }),
        with_directive(d, "workspace_branch:"@ + v) == (DocView {
            workspace_branch: Some(trimmed(v)),
            ..d
        }),
        v.len() > 0 && v[0] != 'w' ==> with_directive(d, v) == d,
{
    reveal_strlit("workspace:");
    reveal_strlit("workspace_repo:");
    reveal_strlit("workspace_branch:");
    let a = "workspace:"@ + v;
    lemma_key("workspace:"@, v);
    assert(a[9] == ':');
    lemma_other_key("workspace_repo:"@, a, 9);
    lemma_other_key("workspace_branch:"@, a, 9);
    lemma_key("workspace_repo:"@, v);
    let b = "workspace_branch:"@ + v;
    lemma_key("workspace_branch:"@, v);
    assert(b[10] == 'b');
    lemma_other_key("workspace_repo:"@, b, 10);
    if v.len() > 0 && v[0] != 'w' {
        lemma_other_key("workspace:"@, v, 0);
        lemma_other_key("workspace_repo:"@, v, 0);
        lemma_other_key("workspace_branch:"@, v, 0);
    }
}

// ---------------------------------------------------------------------------
// Sections
// ---------------------------------------------------------------------------

/// `t` with metadata lines applied in order.
pub open spec fn with_lines(t: TaskView, lines: Seq<Seq<char>>) -> TaskView
    decreases lines.len(),
{
    if lines.len() == 0 {
        t
    } else {
        with_metadata(with_lines(t, lines.drop_last()), trimmed(lines.last()))
    }
}

proof fn lemma_items(w: WalkView, t: TaskView, lines: Seq<Seq<char>>)
    requires
        between_blocks(w),
        w.scope == (Scope::InTask { metadata_open: true }),
        w.current == Some(t),
    ensures
        ({
            let v = run(w, items(lines));
            &&& between_blocks(v)
            &&& v.scope == w.scope
            &&& v.current == Some(with_lines(t, lines))
            &&& v.prompt == w.prompt
            &&& v.doc.tasks == w.doc.tasks
            &&& v.doc.scroll_name == w.doc.scroll_name
            &&& v.doc.workspace == w.doc.workspace
            &&& v.doc.workspace_repo == w.doc.workspace_repo
            &&& v.doc.workspace_branch == w.doc.workspace_branch
        }),
    decreases lines.len(),
{
    if lines.len() > 0 {
        let init = lines.drop_last();
        lemma_items(w, t, init);
        lemma_run_more(w, items(init), item(lines.last()));
        let v = run(w, items(init));
        lemma_run_three(v, MdView::StartItem, MdView::Text(lines.last()), MdView::EndItem);
        assert(Seq::<char>::empty() + lines.last() =~= lines.last());
    }
}

/// A section is one task, after those before it: it has the name of its
/// heading and what its metadata lines set, and its prompt is its paragraphs
/// with a blank line between each two. Nothing else of the document changes,
/// and the next section may follow.
pub proof fn sections_become_tasks(
    events: Seq<MdView>,
    name: Seq<char>,
    lines: Seq<Seq<char>>,
    list: Seq<Seq<char>>,
)
    requires
        between_blocks(steps(events)),
        name.len() > 0,
        !white(name[0]),
        !white(name.last()),
        list.len() > 0,
        forall|i: int| 0 <= i < list.len() ==> (#[trigger] list[i]).len() > 0,
    ensures
        ({
            let section = heading(2, "Task: "@ + name) + items(lines) + paragraphs(list);
            let before = doc_of(events);
            let after = doc_of(events + section);
            let bare = TaskView {
                name,
                prompt: seq![],
                provider: None,
                model: None,
                cwd: None,
                file_patterns: seq![],
                depends_on: seq![],
                peer: None,
                verify: None,
                verify_threshold: None,
            };
            &&& between_blocks(steps(events + section))
            &&& after.tasks == before.tasks.push(
                TaskView { prompt: trimmed(joined(list, "\n\n"@)), ..with_lines(bare, lines) },
            )
            &&& after.scroll_name == before.scroll_name
            &&& after.workspace == before.workspace
            &&& after.workspace_repo == before.workspace_repo
            &&& after.workspace_branch == before.workspace_branch
        }),
{
    let head = heading(2, "Task: "@ + name);
    let section = head + items(lines) + paragraphs(list);
    let w = steps(events);
    lemma_run(events, section);
    lemma_run_more(w, head + items(lines), paragraphs(list));
    lemma_run_more(w, head, items(lines));
    lemma_run_three(
        w,
        MdView::StartHeading(2),
        MdView::Text("Task: "@ + name),
        MdView::EndHeading(2),
    );
    lemma_task_heading(name);
    assert(Seq::<char>::empty() + ("Task: "@ + name) =~= "Task: "@ + name);
    let opened = run(w, head);
    assert(opened.current == Some(new_task(name)));
    assert(opened.doc == close_task(w).doc);
    lemma_items(opened, new_task(name), lines);
    let listed = run(opened, items(lines));
    paragraphs_are_the_prompt(listed, list);
}

proof fn lemma_task_heading(name: Seq<char>)
    requires
        name.len() > 0,
        !white(name[0]),
        !white(name.last()),
    ensures
        task_name("Task: "@ + name) == Some(name),
{
    reveal_strlit("Task: ");
    reveal_strlit("Task:");
    let h = "Task: "@ + name;
    assert(h[0] == 'T');
    assert(h.last() == name.last());
    trimmed_texts_stay(h);
    assert(h =~= "Task:"@ + (seq![' '] + name));
    lemma_key("Task:"@, seq![' '] + name);
    crate::text::padding_is_trimmed(seq![' '], name);
    trimmed_texts_stay(name);
}

/// A second-level heading that names no task opens none: text and items under
/// it are no task's.
pub proof fn other_headings_open_no_task(events: Seq<MdView>, t: Seq<char>)
    requires
        between_blocks(steps(events)),
        t.len() > 0,
        t[0] != 'T',
        !white(t[0]),
        !white(t.last()),
    ensures
        steps(events + heading(2, t)).current is None,
        steps(events + heading(2, t)).scope is PreTask,
        doc_of(events + heading(2, t)) == doc_of(events),
{
    reveal_strlit("Task:");
    lemma_run(events, heading(2, t));
    let w = steps(events);
    lemma_run_three(w, MdView::StartHeading(2), MdView::Text(t), MdView::EndHeading(2));
    trimmed_texts_stay(t);
    lemma_other_key("Task:"@, t, 0);
    assert(Seq::<char>::empty() + t =~= t);
}

/// The first first-level heading names the scroll: without the word before the
/// name, or with it.
pub proof fn headings_name_the_scroll(events: Seq<MdView>, name: Seq<char>)
    requires
        between_blocks(steps(events)),
        steps(events).doc.scroll_name is None,
        name.len() > 0,
        !white(name[0]),
        !white(name.last()),
        name[0] != 'S',
    ensures
        steps(events + heading(1, "Scroll: "@ + name)).doc.scroll_name == Some(name),
        steps(events + heading(1, name)).doc.scroll_name == Some(name),
{
    reveal_strlit("Scroll: ");
    reveal_strlit("Scroll:");
    let w = steps(events);
    let t = "Scroll: "@ + name;
    lemma_run(events, heading(1, t));
    lemma_run_three(w, MdView::StartHeading(1), MdView::Text(t), MdView::EndHeading(1));
    lemma_run(events, heading(1, name));
    lemma_run_three(w, MdView::StartHeading(1), MdView::Text(name), MdView::EndHeading(1));
    assert(Seq::<char>::empty() + t =~= t);
    assert(Seq::<char>::empty() + name =~= name);
    assert(t[0] == 'S' && t.last() == name.last());
    trimmed_texts_stay(t);
    trimmed_texts_stay(name);
    let key = "Scroll:"@;
    let rest = seq![' '] + name;
    assert(t =~= key + rest);
    lemma_key(key, rest);
    lemma_other_key(key, rest, 0);
    lemma_other_key(key, name, 0);
    crate::text::padding_is_trimmed(seq![' '], name);
    assert(without_leading(t, key) == without_leading(rest, key));
    assert(without_leading(rest, key) == rest);
    assert(without_leading(name, key) == name);
}

// ---------------------------------------------------------------------------
// Faults
// ---------------------------------------------------------------------------

/// What is wrong with a document is told in order: no name, an empty name, no
/// tasks, a task without text, a dependency on no task, and one on itself.
pub proof fn faults_are_told_apart(d: DocView)
    ensures
        fault(d) == Some(ScrollFault::MissingHeading) <==> d.scroll_name is None,
        fault(d) == Some(ScrollFault::EmptyName) <==> d.scroll_name is Some
            && d.scroll_name->0.len() == 0,
        fault(d) == Some(ScrollFault::NoTasks) <==> d.scroll_name is Some
            && d.scroll_name->0.len() > 0 && d.tasks.len() == 0,
        fault(d) matches Some(ScrollFault::NoTaskText { task }) ==> exists|i: int|
            0 <= i < d.tasks.len() && (#[trigger] d.tasks[i]).name == task
                && d.tasks[i].prompt.len() == 0,
        fault(d) matches Some(ScrollFault::SelfDependency { task }) ==> exists|i: int|
            0 <= i < d.tasks.len() && (#[trigger] d.tasks[i]).name == task
                && d.tasks[i].depends_on.contains(task),
        fault(d) matches Some(ScrollFault::UnknownDependency { task, dependency, available })
            ==> exists|i: int|
            0 <= i < d.tasks.len() && (#[trigger] d.tasks[i]).name == task
                && d.tasks[i].depends_on.contains(dependency) && forall|k: int|
                0 <= k < d.tasks.len() ==> (#[trigger] d.tasks[k]).name != dependency,
{
    if d.tasks.len() > 0 {
        lemma_prompt(d.tasks, 0);
        lemma_dependency(d.tasks, 0);
    }
}

proof fn lemma_prompt(tasks: Seq<TaskView>, i: int)
    requires
        0 <= i <= tasks.len(),
    ensures
        match crate::scroll_parser::prompt_fault(tasks, i) {
            None => true,
            Some(f) => f matches ScrollFault::NoTaskText { task } && exists|k: int|
                0 <= k < tasks.len() && (#[trigger] tasks[k]).name == task && tasks[k].prompt.len()
                    == 0,
        },
    decreases tasks.len() - i,
{
    if i < tasks.len() && tasks[i].prompt.len() > 0 {
        lemma_prompt(tasks, i + 1);
    }
}

proof fn lemma_missing(t: TaskView, available: Seq<Seq<char>>, j: int)
    requires
        0 <= j <= t.depends_on.len(),
    ensures
        match crate::scroll_parser::missing_dependency(t, available, j) {
            None => true,
            Some(f) => f matches ScrollFault::UnknownDependency { task, dependency, available: a }
                && task == t.name && a == available && t.depends_on.contains(dependency)
                && !available.contains(dependency),
        },
    decreases t.depends_on.len() - j,
{
    if j < t.depends_on.len() && available.contains(t.depends_on[j]) {
        lemma_missing(t, available, j + 1);
    }
}

proof fn lemma_dependency(tasks: Seq<TaskView>, i: int)
    requires
        0 <= i <= tasks.len(),
    ensures
        match crate::scroll_parser::dependency_fault(tasks, i) {
            None => true,
            Some(ScrollFault::SelfDependency { task }) => exists|k: int|
                0 <= k < tasks.len() && (#[trigger] tasks[k]).name == task
                    && tasks[k].depends_on.contains(task),
            Some(ScrollFault::UnknownDependency { task, dependency, available }) => exists|k: int|
                0 <= k < tasks.len() && (#[trigger] tasks[k]).name == task
                    && tasks[k].depends_on.contains(dependency) && forall|m: int|
                    0 <= m < tasks.len() ==> (#[trigger] tasks[m]).name != dependency,
            Some(_) => false,
        },
    decreases tasks.len() - i,
{
    if i < tasks.len() {
        let all = crate::scroll_parser::names(tasks);
        lemma_missing(tasks[i], all, 0);
        match crate::scroll_parser::missing_dependency(tasks[i], all, 0) {
            Some(ScrollFault::UnknownDependency { task, dependency, available }) => {
                assert forall|m: int| 0 <= m < tasks.len() implies (#[trigger] tasks[m]).name
                    != dependency by {
                    assert(all[m] == tasks[m].name);
                }
                assert(tasks[i].name == task);
            },
            Some(_) => {},
            None => {
                if !tasks[i].depends_on.contains(tasks[i].name) {
                    lemma_dependency(tasks, i + 1);
                } else {
                    assert(tasks[i].name == tasks[i].name);
                }
            },
        }
    }
}

} // verus!
