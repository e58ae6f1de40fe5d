//! The scheduler's decisions: which queued agents are dispatched, which due
//! restarts and which wakes are carried out, under one cap on the agents in
//! flight.
//!
//! A tick goes mail-wake first, then restarts, then the queue in order. The
//! caller performs each action and reports how it went.

use crate::bytes::{
    byte_len, cut_to_chars, first_chars, lemma_utf8_len_concat, lemma_utf8_len_push,
};
use crate::decimal::{decimal, to_decimal};
use crate::text::{cat, holds, opt_text, same, texts, utf8_len};
use crate::types::{events_view, mails_view, terminal, AgentState, EventView, Mail, MailView, StreamEvent};
use vstd::prelude::*;
use vstd::string::*;

verus! {

/// Folded wake-prompt cap, in bytes. Tighter than the limit on a mail body so
/// resume prompts stay manageable.
pub const WAKE_FOLD_MAX_BYTES: usize = 16_384;

/// Characters that are kept of a first message too large to fold whole.
pub const OVERSIZE_CHARS: usize = 4_096;

/// What stands between two folded messages.
pub const FOLD_SEPARATOR: &'static str = "\n\n---\n\n";

// ---------------------------------------------------------------------------
// Wake prompts
// ---------------------------------------------------------------------------

/// What a fold has gathered: the text, how many messages it holds, and how
/// many are noted as left out.
pub ghost struct Fold {
    pub text: Seq<char>,
    pub taken: int,
    pub dropped: int,
}

/// The `i`th message as it is added: with a separator but for the first.
pub open spec fn fold_piece(mails: Seq<MailView>, i: int) -> Seq<char> {
    if i == 0 {
        mails[i].body
    } else {
        "\n\n---\n\n"@ + mails[i].body
    }
}

/// The fold of `mails` from the `i`th on, with `text` gathered before. It
/// ends at the first message that does not fit; where nothing is gathered by
/// then, that message is cut rather than left out.
pub open spec fn fold_from(mails: Seq<MailView>, i: int, text: Seq<char>) -> Fold
    decreases mails.len() - i,
{
    if i < 0 || i >= mails.len() {
        Fold { text, taken: mails.len() as int, dropped: 0 }
    } else if utf8_len(text) + utf8_len(fold_piece(mails, i)) > WAKE_FOLD_MAX_BYTES {
        if text.len() == 0 {
            Fold {
                text: first_chars(mails[i].body, OVERSIZE_CHARS as nat),
                taken: i + 1,
                dropped: mails.len() - (i + 1),
            }
        } else {
            Fold { text, taken: i, dropped: mails.len() - i }
        }
    } else {
        fold_from(mails, i + 1, text + fold_piece(mails, i))
    }
}

/// The fold of all of `mails`.
pub open spec fn fold(mails: Seq<MailView>) -> Fold {
    fold_from(mails, 0, seq![])
}

/// The prompt of a fold: its text, and a note where messages were left out.
pub open spec fn fold_prompt(f: Fold) -> Seq<char> {
    if f.dropped > 0 {
        f.text + "\n\n[... "@ + decimal(f.dropped as nat) + " more truncated]"@
    } else {
        f.text
    }
}

/// The ids of the first `n` messages.
pub open spec fn folded_ids(mails: Seq<MailView>, n: int) -> Seq<Seq<char>> {
    Seq::new(n as nat, |i: int| mails[i].id)
}

/// Folds pending mail into one resume prompt: bodies joined by a separator,
/// cut at [`WAKE_FOLD_MAX_BYTES`] with a note of what was left out. Returns
/// the prompt and the ids of the messages in it. A message that was cut
/// counts as folded, so it cannot block forever.
pub fn build_wake_prompt(mails: &Vec<Mail>) -> (r: (String, Vec<String>))
    ensures
        r.0@ == fold_prompt(fold(mails_view(mails@))),
        texts(r.1@) == folded_ids(mails_view(mails@), fold(mails_view(mails@)).taken),
{
    let ghost all = mails_view(mails@);
    let mut buf = String::new();
    let mut ids: Vec<String> = Vec::new();
    let mut dropped: usize = 0;
    let mut i: usize = 0;
    let mut done = false;
    assert(texts(ids@) =~= folded_ids(all, 0));
    while i < mails.len() && !done
        invariant
            all == mails_view(mails@),
            i <= mails@.len(),
            !done ==> dropped == 0 && fold(all) == fold_from(all, i as int, buf@) && texts(ids@)
                == folded_ids(all, i as int),
            done ==> fold(all) == (Fold {
                text: buf@,
                taken: ids@.len() as int,
                dropped: dropped as int,
            }) && texts(ids@) == folded_ids(all, ids@.len() as int),
        decreases
            mails@.len() - i + if done {
                0int
            } else {
                1int
            },
    {
        let m = &mails[i];
        assert(all[i as int] == m@);
        let piece = if i == 0 {
            m.body.clone()
        } else {
            cat(FOLD_SEPARATOR, m.body.as_str())
        };
        assert(piece@ == fold_piece(all, i as int));
        let used: usize = byte_len(buf.as_str());
        let more: usize = byte_len(piece.as_str());
        let ghost before = texts(ids@);
        if used > WAKE_FOLD_MAX_BYTES || more > WAKE_FOLD_MAX_BYTES - used {
            if buf.as_str().is_empty() {
                buf = cut_to_chars(m.body.as_str(), OVERSIZE_CHARS);
                ids.push(m.id.clone());
                dropped = mails.len() - (i + 1);
                assert(texts(ids@) =~= before.push(m@.id));
                assert(texts(ids@) =~= folded_ids(all, i + 1));
            } else {
                dropped = mails.len() - i;
            }
            assert(texts(ids@).len() == ids@.len());
            done = true;
        } else {
            buf.append(piece.as_str());
            ids.push(m.id.clone());
            assert(texts(ids@) =~= before.push(m@.id));
            assert(texts(ids@) =~= folded_ids(all, i + 1));
            i = i + 1;
        }
    }
    if dropped > 0 {
        buf.append("\n\n[... ");
        buf.append(to_decimal(dropped as u64).as_str());
        buf.append(" more truncated]");
    }
    (buf, ids)
}

proof fn lemma_fold_bounds(mails: Seq<MailView>, i: int, text: Seq<char>)
    requires
        0 <= i <= mails.len(),
        utf8_len(text) <= WAKE_FOLD_MAX_BYTES,
    ensures
        utf8_len(fold_from(mails, i, text).text) <= WAKE_FOLD_MAX_BYTES,
        i <= fold_from(mails, i, text).taken <= mails.len(),
        fold_from(mails, i, text).dropped <= mails.len(),
    decreases mails.len() - i,
{
    if i < mails.len() {
        let piece = fold_piece(mails, i);
        if utf8_len(text) + utf8_len(piece) > WAKE_FOLD_MAX_BYTES {
            lemma_first_chars_size(mails[i].body, OVERSIZE_CHARS as nat);
        } else {
            lemma_utf8_len_concat(text, piece);
            lemma_fold_bounds(mails, i + 1, text + piece);
        }
    }
}

proof fn lemma_first_chars_size(s: Seq<char>, n: nat)
    ensures
        utf8_len(first_chars(s, n)) <= 4 * n,
{
    lemma_size_by_count(first_chars(s, n));
}

proof fn lemma_size_by_count(s: Seq<char>)
    ensures
        utf8_len(s) <= 4 * s.len(),
        s.len() > 0 ==> utf8_len(s) > 0,
    decreases s.len(),
{
    if s.len() > 0 {
        lemma_size_by_count(s.drop_last());
        assert(s =~= s.drop_last().push(s.last()));
        lemma_utf8_len_push(s.drop_last(), s.last());
    } else {
        assert(vstd::utf8::encode_utf8(s) =~= Seq::<u8>::empty());
    }
}

/// The folded text never exceeds the cap in bytes; only the note comes on
/// top of it.
pub proof fn wake_fold_within_cap(mails: Seq<MailView>)
    ensures
        utf8_len(fold(mails).text) <= WAKE_FOLD_MAX_BYTES,
{
    assert(vstd::utf8::encode_utf8(Seq::<char>::empty()) =~= Seq::<u8>::empty());
    lemma_fold_bounds(mails, 0, seq![]);
}

/// Where mail is pending, a wake takes at least the first message, so mail
/// cannot wait forever.
pub proof fn wake_makes_progress(mails: Seq<MailView>)
    requires
        mails.len() > 0,
    ensures
        1 <= fold(mails).taken <= mails.len(),
{
    assert(vstd::utf8::encode_utf8(Seq::<char>::empty()) =~= Seq::<u8>::empty());
    lemma_fold_bounds(mails, 0, seq![]);
    let piece = fold_piece(mails, 0);
    if utf8_len(piece) <= WAKE_FOLD_MAX_BYTES {
        lemma_utf8_len_concat(seq![], piece);
        lemma_fold_bounds(mails, 1, Seq::<char>::empty() + piece);
    }
}

proof fn lemma_fold_counts(mails: Seq<MailView>, i: int, text: Seq<char>)
    requires
        0 <= i <= mails.len(),
    ensures
        fold_from(mails, i, text).taken + fold_from(mails, i, text).dropped == mails.len(),
    decreases mails.len() - i,
{
    if i < mails.len() && utf8_len(text) + utf8_len(fold_piece(mails, i)) <= WAKE_FOLD_MAX_BYTES {
        lemma_fold_counts(mails, i + 1, text + fold_piece(mails, i));
    }
}

/// Every message is either folded or counted in the note.
pub proof fn folded_or_counted(mails: Seq<MailView>)
    ensures
        fold(mails).taken + fold(mails).dropped == mails.len(),
{
    lemma_fold_counts(mails, 0, seq![]);
}

// ---------------------------------------------------------------------------
// Wake-up signals
// ---------------------------------------------------------------------------

/// Whether an event may let the scheduler do something.
pub open spec fn wakes(e: EventView) -> bool {
    match e {
        EventView::AgentQueued { .. } => true,
        EventView::WorkerRegistered { .. } => true,
        EventView::MailReceived { .. } => true,
        EventView::RestartScheduled { .. } => true,
        EventView::StateChange { new_state, .. } => terminal(new_state),
        _ => false,
    }
}

/// Whether an event may let the scheduler do something.
pub fn should_wake(event: &StreamEvent) -> (r: bool)
    ensures
        r == wakes(event@),
{
    match event {
        StreamEvent::AgentQueued { .. } => true,
        StreamEvent::WorkerRegistered { .. } => true,
        StreamEvent::MailReceived { .. } => true,
        StreamEvent::RestartScheduled { .. } => true,
        StreamEvent::StateChange { new_state, .. } => new_state.is_terminal(),
        _ => false,
    }
}

// ---------------------------------------------------------------------------
// The tick
// ---------------------------------------------------------------------------

/// A queued agent.
#[derive(Debug)]
pub struct QueueRow {
    pub id: String,
    pub lane: String,
    pub enqueued_at: i64,
    pub provider_name: Option<String>,
    pub cwd: String,
    pub model: Option<String>,
    pub block_reason: Option<String>,
    pub task_text: String,
}

/// What a [`QueueRow`] holds.
#[verifier::ext_equal]
pub ghost struct QueueRowView {
    pub id: Seq<char>,
    pub lane: Seq<char>,
    pub enqueued_at: i64,
    pub provider_name: Option<Seq<char>>,
    pub cwd: Seq<char>,
    pub model: Option<Seq<char>>,
    pub block_reason: Option<Seq<char>>,
    pub task_text: Seq<char>,
}

impl View for QueueRow {
    type V = QueueRowView;

    open spec fn view(&self) -> QueueRowView {
        QueueRowView {
            id: self.id@,
            lane: self.lane@,
            enqueued_at: self.enqueued_at,
            provider_name: opt_text(self.provider_name),
            cwd: self.cwd@,
            model: opt_text(self.model),
            block_reason: opt_text(self.block_reason),
            task_text: self.task_text@,
        }
    }
}

/// What to do with a queued row.
#[derive(Clone, Copy, Debug)]
pub enum RowAction {
    /// Leave it as it is.
    Skip,
    /// Note why it waits.
    Block { reason: &'static str },
    /// Claim it, and dispatch it if the claim succeeds.
    Claim,
}

/// What a [`RowAction`] says.
pub ghost enum RowActionView {
    Skip,
    Block { reason: Seq<char> },
    Claim,
}

impl View for RowAction {
    type V = RowActionView;

    open spec fn view(&self) -> RowActionView {
        match *self {
            RowAction::Skip => RowActionView::Skip,
            RowAction::Block { reason } => RowActionView::Block { reason: reason@ },
            RowAction::Claim => RowActionView::Claim,
        }
    }
}

/// What to do with a restart that is due.
#[derive(Clone, Copy, Debug, PartialEq, Eq, Structural)]
pub enum RestartAction {
    Dispatch,
    Requeue,
}

/// What to do with an agent that has wake-eligible mail pending.
#[derive(Debug)]
pub enum WakeAction {
    /// No slot is free: the rest wait for another tick.
    Stop,
    /// The agent cannot be woken, or has nothing pending after all.
    Skip,
    /// Invoke the agent with the prompt; on success the folded mail is
    /// delivered.
    Wake { prompt: String, folded_ids: Vec<String> },
}

/// Notes a reason for waiting, unless it is noted already.
pub open spec fn block_with(row: QueueRowView, reason: Seq<char>) -> RowActionView {
    if row.block_reason == Some(reason) {
        RowActionView::Skip
    } else {
        RowActionView::Block { reason }
    }
}

/// What to do with a queued row. `has_worker` says whether a worker offers
/// the row's provider.
pub open spec fn row_action(
    t: Tick,
    row: QueueRowView,
    local_providers: Seq<Seq<char>>,
    has_worker: bool,
) -> RowActionView {
    if t.phase != Phase::Queue {
        RowActionView::Skip
    } else if t.in_flight >= t.cap {
        block_with(row, "capacity"@)
    } else if row.provider_name matches Some(p) && !local_providers.contains(p) && !has_worker {
        block_with(row, "no_eligible_worker"@)
    } else {
        RowActionView::Claim
    }
}

/// How far a tick is. Mail wakes agents before anything is taken from the
/// queue, so that a wake and a queued row cannot race for one slot.
#[derive(Clone, Copy, Debug, PartialEq, Eq, Structural)]
pub enum Phase {
    /// Agents with mail are woken.
    Wake,
    /// Restarts that are due are dispatched.
    Restart,
    /// Rows of the queue are claimed, in order.
    Queue,
    /// Nothing more is done in this tick.
    Over,
}

/// One tick: the agents in flight, the cap on them, and how far it is.
#[derive(Clone, Copy, Debug)]
pub struct Tick {
    pub in_flight: usize,
    pub cap: usize,
    pub phase: Phase,
}

/// What comes after a phase. A tick that has no slot left ends before the
/// queue is looked at, so no row is noted as waiting.
pub open spec fn phase_after(t: Tick) -> Phase {
    match t.phase {
        Phase::Wake => if t.in_flight < t.cap {
            Phase::Restart
        } else {
            Phase::Over
        },
        Phase::Restart => if t.in_flight < t.cap {
            Phase::Queue
        } else {
            Phase::Over
        },
        Phase::Queue => Phase::Over,
        Phase::Over => Phase::Over,
    }
}

/// The mail whose delivery a wake reports: the folded messages that were
/// marked, in order.
pub open spec fn delivered_events(mails: Seq<MailView>, marked: Seq<bool>, n: int) -> Seq<EventView>
    decreases n,
{
    if n <= 0 {
        seq![]
    } else {
        let before = delivered_events(mails, marked, n - 1);
        if marked[n - 1] {
            before.push(
                EventView::MailDelivered {
                    mail_id: mails[n - 1].id,
                    recipient_id: mails[n - 1].recipient_id,
                    origin_daemon_id: None,
                },
            )
        } else {
            before
        }
    }
}

impl Tick {
    /// Begins a tick. With a cap of zero nothing is done in it.
    pub fn begin(in_flight: usize, cap: usize) -> (t: Tick)
        ensures
            t == (Tick {
                in_flight,
                cap,
                phase: if cap == 0 {
                    Phase::Over
                } else {
                    Phase::Wake
                },
            }),
    {
        let phase = if cap == 0 {
            Phase::Over
        } else {
            Phase::Wake
        };
        Tick { in_flight, cap, phase }
    }

    /// Ends a phase: everything in it was looked at.
    pub fn advance(&mut self)
        ensures
            *final(self) == (Tick { phase: phase_after(*old(self)), ..*old(self) }),
    {
        let room = self.has_room();
        self.phase = match self.phase {
            Phase::Wake => if room {
                Phase::Restart
            } else {
                Phase::Over
            },
            Phase::Restart => if room {
                Phase::Queue
            } else {
                Phase::Over
            },
            Phase::Queue => Phase::Over,
            Phase::Over => Phase::Over,
        };
    }

    /// Whether the tick has a slot to give. A cap of zero gives none.
    pub fn has_room(&self) -> (r: bool)
        ensures
            r == (self.in_flight < self.cap),
    {
        self.in_flight < self.cap
    }

    /// An agent was woken or restarted.
    pub fn started(&mut self)
        requires
            old(self).phase == Phase::Wake || old(self).phase == Phase::Restart,
            old(self).in_flight < old(self).cap,
        ensures
            *final(self) == (Tick { in_flight: (old(self).in_flight + 1) as usize, ..*old(self) }),
    {
        self.in_flight = self.in_flight + 1;
    }

    /// What to do with the next row of the queue.
    pub fn row(&self, row: &QueueRow, local_providers: &Vec<String>, has_worker: bool) -> (r:
        RowAction)
        ensures
            r@ == row_action(*self, row@, texts(local_providers@), has_worker),
    {
        if self.phase != Phase::Queue {
            return RowAction::Skip;
        }
        if self.in_flight >= self.cap {
            return block(row, "capacity");
        }
        match &row.provider_name {
            Some(p) => {
                if !holds(local_providers, p.as_str()) && !has_worker {
                    return block(row, "no_eligible_worker");
                }
            },
            None => {},
        }
        RowAction::Claim
    }

    /// Takes in how the dispatch of a claimed row went. On failure the row
    /// that comes back is put in the queue again, at its old place, and the
    /// tick goes no further.
    pub fn dispatched(&mut self, row: QueueRow, ok: bool) -> (rollback: Option<QueueRow>)
        requires
            old(self).phase == Phase::Queue,
            old(self).in_flight < old(self).cap,
        ensures
            ok ==> rollback is None && *final(self) == (Tick {
                in_flight: (old(self).in_flight + 1) as usize,
                ..*old(self)
            }),
            !ok ==> *final(self) == (Tick { phase: Phase::Over, ..*old(self) }),
            !ok ==> (rollback matches Some(back) && back@ == (QueueRowView {
                block_reason: None,
                ..row@
            })),
    {
        if ok {
            self.in_flight = self.in_flight + 1;
            None
        } else {
            self.phase = Phase::Over;
            let mut back = row;
            back.block_reason = None;
            Some(back)
        }
    }

    /// What to do with the next restart that is due.
    pub fn restart(&self) -> (r: RestartAction)
        requires
            self.phase == Phase::Restart,
        ensures
            r == (if self.in_flight < self.cap {
                RestartAction::Dispatch
            } else {
                RestartAction::Requeue
            }),
    {
        if self.in_flight >= self.cap {
            RestartAction::Requeue
        } else {
            RestartAction::Dispatch
        }
    }

    /// What to do about the next agent with wake-eligible mail. Only a
    /// dormant agent with a session can be woken; `pending` is its mail.
    pub fn mail_wake(&self, state: Option<AgentState>, has_session: bool, pending: &Vec<Mail>) -> (r:
        WakeAction)
        requires
            self.phase == Phase::Wake,
        ensures
            match r {
                WakeAction::Stop => self.in_flight >= self.cap,
                WakeAction::Skip => self.in_flight < self.cap && !(state == Some(
                    AgentState::Dormant,
                ) && has_session && pending@.len() > 0),
                WakeAction::Wake { prompt, folded_ids: ids } => {
                    &&& self.in_flight < self.cap
                    &&& state == Some(AgentState::Dormant)
                    &&& has_session
                    &&& pending@.len() > 0
                    &&& prompt@ == fold_prompt(fold(mails_view(pending@)))
                    &&& texts(ids@) == folded_ids(
                        mails_view(pending@),
                        fold(mails_view(pending@)).taken,
                    )
                },
            },
    {
        if self.in_flight >= self.cap {
            return WakeAction::Stop;
        }
        let dormant = match state {
            Some(AgentState::Dormant) => true,
            _ => false,
        };
        if !dormant || !has_session || pending.len() == 0 {
            return WakeAction::Skip;
        }
        let (prompt, ids) = build_wake_prompt(pending);
        WakeAction::Wake { prompt, folded_ids: ids }
    }
}

fn block(row: &QueueRow, reason: &'static str) -> (r: RowAction)
    ensures
        r@ == block_with(row@, reason@),
{
    match &row.block_reason {
        Some(b) => if same(b.as_str(), reason) {
            RowAction::Skip
        } else {
            RowAction::Block { reason }
        },
        None => RowAction::Block { reason },
    }
}

/// The events of mail that a wake delivered: for each message of the prompt
/// that was marked as delivered. `marked` says it of each, in order.
pub fn wake_delivered(pending: &Vec<Mail>, marked: &Vec<bool>) -> (events: Vec<StreamEvent>)
    requires
        marked@.len() <= pending@.len(),
    ensures
        events_view(events@) == delivered_events(
            mails_view(pending@),
            marked@,
            marked@.len() as int,
        ),
{
    let mut events: Vec<StreamEvent> = Vec::new();
    assert(events_view(events@) =~= Seq::<EventView>::empty());
    for i in 0..marked.len()
        invariant
            marked@.len() <= pending@.len(),
            events_view(events@) == delivered_events(mails_view(pending@), marked@, i as int),
    {
        if marked[i] {
            let ghost before = events_view(events@);
            assert(mails_view(pending@)[i as int] == pending@[i as int]@);
            let e = StreamEvent::MailDelivered {
                mail_id: pending[i].id.clone(),
                recipient_id: pending[i].recipient_id.clone(),
                origin_daemon_id: None,
            };
            events.push(e);
            assert(events_view(events@) =~= before.push(e@));
        }
    }
    events
}

// ---------------------------------------------------------------------------
// Laws of the tick
// ---------------------------------------------------------------------------

/// Nothing is started without a free slot: a row is claimed, a restart
/// dispatched or an agent woken only below the cap, so the agents in flight
/// never pass it.
pub proof fn starts_only_below_cap(
    t: Tick,
    row: QueueRowView,
    local_providers: Seq<Seq<char>>,
    has_worker: bool,
)
    ensures
        row_action(t, row, local_providers, has_worker) is Claim ==> t.in_flight < t.cap && t.phase
            == Phase::Queue,
        t.cap == 0 ==> !(row_action(t, row, local_providers, has_worker) is Claim),
{
}

/// A row is never blocked for want of a worker where its provider runs in
/// the daemon itself, or where it names none.
pub proof fn local_rows_need_no_worker(
    t: Tick,
    row: QueueRowView,
    local_providers: Seq<Seq<char>>,
    has_worker: bool,
)
    requires
        t.in_flight < t.cap,
        t.phase == Phase::Queue,
        row.provider_name matches Some(p) ==> local_providers.contains(p),
    ensures
        row_action(t, row, local_providers, has_worker) is Claim,
{
}

/// The place of a phase in the order of a tick.
pub open spec fn phase_rank(p: Phase) -> int {
    match p {
        Phase::Wake => 0,
        Phase::Restart => 1,
        Phase::Queue => 2,
        Phase::Over => 3,
    }
}

/// A tick only goes on: wakes, then restarts, then the queue, each at most
/// once.
pub proof fn phases_come_in_order(t: Tick)
    ensures
        t.phase != Phase::Over ==> phase_rank(phase_after(t)) > phase_rank(t.phase),
        phase_after(t) == Phase::Queue ==> t.phase == Phase::Restart,
        phase_after(t) == Phase::Restart ==> t.phase == Phase::Wake,
{
}

/// A tick that is full when wakes or restarts are done leaves the queue as it
/// is: no row is claimed, and none is noted as waiting.
pub proof fn full_ticks_leave_the_queue(
    t: Tick,
    row: QueueRowView,
    local_providers: Seq<Seq<char>>,
    has_worker: bool,
)
    requires
        t.phase == Phase::Wake || t.phase == Phase::Restart,
        t.in_flight >= t.cap,
    ensures
        row_action(
            Tick { phase: phase_after(t), ..t },
            row,
            local_providers,
            has_worker,
        ) is Skip,
{
}

// ---------------------------------------------------------------------------
// Laws of the wake prompt
// ---------------------------------------------------------------------------

proof fn lemma_fold_one_more(mails: Seq<MailView>, m: MailView, i: int, text: Seq<char>)
    requires
        0 <= i <= mails.len(),
        mails.len() > 0,
        i == 0 ==> text == Seq::<char>::empty(),
        i == 0 ==> mails[0].body.len() > 0 && utf8_len(mails[0].body) <= 16_384,
        i > 0 ==> text.len() > 0,
    ensures
        ({
            let before = fold_from(mails, i, text);
            let after = fold_from(mails.push(m), i, text);
            let added = "\n\n---\n\n"@ + m.body;
            if before.dropped > 0 {
                after.text == before.text && after.taken == before.taken && after.dropped
                    == before.dropped + 1
            } else if utf8_len(before.text) + utf8_len(added) > 16_384 {
                after.text == before.text && after.taken == before.taken && after.dropped == 1
            } else {
                after.text == before.text + added && after.taken == before.taken + 1
                    && after.dropped == 0
            }
        }),
    decreases mails.len() - i,
{
    let more = mails.push(m);
    reveal_strlit("\n\n---\n\n");
    if i < mails.len() {
        assert(fold_piece(more, i) == fold_piece(mails, i));
        let piece = fold_piece(mails, i);
        if i == 0 {
            assert(utf8_len(Seq::<char>::empty()) == 0) by {
                assert(vstd::utf8::encode_utf8(Seq::<char>::empty()) =~= Seq::<u8>::empty());
            }
        }
        if utf8_len(text) + utf8_len(piece) <= 16_384 {
            lemma_fold_one_more(mails, m, i + 1, text + piece);
        }
    } else {
        assert(fold_from(more, i, text) == (if utf8_len(text) + utf8_len(fold_piece(more, i))
            > WAKE_FOLD_MAX_BYTES {
            Fold { text, taken: i, dropped: more.len() - i }
        } else {
            fold_from(more, i + 1, text + fold_piece(more, i))
        }));
    }
}

/// A message that fits in the 16384 bytes of a prompt is its whole body, and
/// of one that does not, the first 4096 characters are kept.
pub proof fn first_message_is_folded(m: MailView)
    ensures
        utf8_len(m.body) <= 16_384 ==> fold(seq![m]).text == m.body,
        utf8_len(m.body) > 16_384 ==> fold(seq![m]).text == m.body.take(4_096),
        fold(seq![m]).taken == 1,
        fold(seq![m]).dropped == 0,
        fold(Seq::<MailView>::empty()) == (Fold { text: seq![], taken: 0, dropped: 0 }),
{
    let mails = seq![m];
    assert(utf8_len(Seq::<char>::empty()) == 0) by {
        assert(vstd::utf8::encode_utf8(Seq::<char>::empty()) =~= Seq::<u8>::empty());
    }
    lemma_size_by_count(m.body);
    assert(Seq::<char>::empty() + m.body =~= m.body);
    assert(fold_from(mails, 1, m.body) == (Fold { text: m.body, taken: 1, dropped: 0 }));
}

/// A further message joins a prompt behind a rule, as long as the whole stays
/// within 16384 bytes. Once one message has been left out, so are those
/// behind it.
pub proof fn later_messages_are_folded(mails: Seq<MailView>, m: MailView)
    requires
        mails.len() > 0,
        0 < mails[0].body.len(),
        utf8_len(mails[0].body) <= 16_384,
    ensures
        ({
            let before = fold(mails);
            let after = fold(mails.push(m));
            let joined = before.text + "\n\n---\n\n"@ + m.body;
            if before.dropped == 0 && utf8_len(joined) <= 16_384 {
                after.text == joined && after.taken == mails.len() + 1 && after.dropped == 0
            } else {
                after.text == before.text && after.taken == before.taken && after.dropped
                    == before.dropped + 1
            }
        }),
{
    lemma_fold_one_more(mails, m, 0, seq![]);
    folded_or_counted(mails);
    let before = fold(mails);
    let added = "\n\n---\n\n"@ + m.body;
    lemma_utf8_len_concat(before.text, added);
    assert(before.text + "\n\n---\n\n"@ + m.body =~= before.text + added);
    lemma_fold_drops(mails, 0, seq![]);
}

proof fn lemma_fold_drops(mails: Seq<MailView>, i: int, text: Seq<char>)
    requires
        0 <= i <= mails.len(),
    ensures
        fold_from(mails, i, text).dropped >= 0,
    decreases mails.len() - i,
{
    if i < mails.len() && utf8_len(text) + utf8_len(fold_piece(mails, i)) <= WAKE_FOLD_MAX_BYTES {
        lemma_fold_drops(mails, i + 1, text + fold_piece(mails, i));
    }
}

/// A prompt that leaves messages out says how many, after its text, and one
/// that holds them all is its text alone. The ids that come with it are those
/// of the messages in it, from the first on.
pub proof fn prompts_tell_what_they_hold(f: Fold, mails: Seq<MailView>, i: int)
    requires
        0 <= f.taken <= mails.len(),
        0 <= f.dropped,
        0 <= i < f.taken,
    ensures
        f.dropped == 0 ==> fold_prompt(f) == f.text,
        f.dropped > 0 ==> fold_prompt(f) == f.text + "\n\n[... "@ + decimal(f.dropped as nat)
            + " more truncated]"@,
        folded_ids(mails, f.taken).len() == f.taken,
        folded_ids(mails, f.taken)[i] == mails[i].id,
{
}

/// A free slot in the queue's turn goes to a row whose provider can run
/// somewhere; a row that cannot go notes the first thing it waits for, once.
pub proof fn rows_wait_for_a_reason(
    t: Tick,
    row: QueueRowView,
    local_providers: Seq<Seq<char>>,
    has_worker: bool,
)
    requires
        t.phase == Phase::Queue,
    ensures
        ({
            let does = row_action(t, row, local_providers, has_worker);
            let homeless = row.provider_name matches Some(p) && !local_providers.contains(p)
                && !has_worker;
            &&& t.in_flight < t.cap && !homeless ==> does == RowActionView::Claim
            &&& t.in_flight >= t.cap && row.block_reason != Some("capacity"@) ==> does == (
            RowActionView::Block { reason: "capacity"@ })
            &&& t.in_flight >= t.cap && row.block_reason == Some("capacity"@) ==> does
                == RowActionView::Skip
            &&& t.in_flight < t.cap && homeless && row.block_reason != Some(
                "no_eligible_worker"@,
            ) ==> does == (RowActionView::Block { reason: "no_eligible_worker"@ })
            &&& t.in_flight < t.cap && homeless && row.block_reason == Some(
                "no_eligible_worker"@,
            ) ==> does == RowActionView::Skip
        }),
{
}

/// A tick with a free slot goes through every phase; one without ends.
pub proof fn room_carries_a_tick_on(t: Tick)
    ensures
        t.in_flight < t.cap && t.phase == Phase::Wake ==> phase_after(t) == Phase::Restart,
        t.in_flight < t.cap && t.phase == Phase::Restart ==> phase_after(t) == Phase::Queue,
        t.in_flight >= t.cap ==> phase_after(t) == Phase::Over,
        t.phase == Phase::Queue ==> phase_after(t) == Phase::Over,
{
}

/// What may need a slot or free one wakes the scheduler: a queued agent, a
/// new worker, mail, a scheduled restart, and an agent that is over. An agent
/// that merely changes what it does, and what an agent says, do not.
pub proof fn only_slots_matter(e: EventView)
    ensures
        e is AgentQueued || e is WorkerRegistered || e is MailReceived || e is RestartScheduled
            ==> wakes(e),
        e matches EventView::StateChange { new_state, .. } ==> (wakes(e) <==> (new_state
            == AgentState::Complete || new_state == AgentState::Failed || new_state
            == AgentState::Banished)),
        wakes(e) ==> e is AgentQueued || e is WorkerRegistered || e is MailReceived
            || e is RestartScheduled || e is StateChange,
{
}

/// Of the messages of a wake, exactly those that were marked are told as
/// delivered, each to its recipient.
pub proof fn marked_mail_is_told(mails: Seq<MailView>, marked: Seq<bool>, n: int)
    requires
        0 <= n < mails.len(),
        n < marked.len(),
    ensures
        delivered_events(mails, marked, 0).len() == 0,
        !marked[n] ==> delivered_events(mails, marked, n + 1) == delivered_events(mails, marked, n),
        marked[n] ==> delivered_events(mails, marked, n + 1).drop_last() == delivered_events(
            mails,
            marked,
            n,
        ),
        marked[n] ==> (delivered_events(mails, marked, n + 1).last() matches
            EventView::MailDelivered { mail_id, recipient_id, origin_daemon_id }
            && mail_id == mails[n].id && recipient_id == mails[n].recipient_id
            && origin_daemon_id is None),
{
    assert(marked[n] ==> delivered_events(mails, marked, n + 1).drop_last() =~= delivered_events(
        mails,
        marked,
        n,
    ));
}

/// A dormant agent with a session is woken by its mail while a slot is free,
/// with the mail folded into its prompt. No other agent is woken.
pub proof fn mail_wakes_dormant_agents(
    t: Tick,
    state: Option<AgentState>,
    has_session: bool,
    pending: Vec<Mail>,
    r: WakeAction,
)
    requires
        t.phase == Phase::Wake,
        call_ensures(Tick::mail_wake, (&t, state, has_session, &pending), r),
    ensures
        r is Stop <==> t.in_flight >= t.cap,
        r is Wake <==> t.in_flight < t.cap && state == Some(AgentState::Dormant) && has_session
            && pending@.len() > 0,
        r matches WakeAction::Wake { prompt, folded_ids } ==> folded_ids@.len() > 0
            && folded_ids@[0]@ == pending@[0].id@,
{
    if r is Wake {
        let all = mails_view(pending@);
        wake_makes_progress(all);
        let ids = r->folded_ids;
        assert(texts(ids@).len() == ids@.len());
        assert(folded_ids(all, fold(all).taken).len() == fold(all).taken);
        assert(texts(ids@)[0] == ids@[0]@);
        assert(folded_ids(all, fold(all).taken)[0] == all[0].id);
    }
}

/// A restart that is due is dispatched while a slot is free, and kept for
/// another tick otherwise. A tick begins with the wakes, and with no cap it
/// does nothing.
pub proof fn due_restarts_take_slots(t: Tick, r: RestartAction, begun: Tick)
    requires
        t.phase == Phase::Restart,
        call_ensures(Tick::restart, (&t,), r),
        call_ensures(Tick::begin, (t.in_flight, t.cap), begun),
    ensures
        t.in_flight < t.cap <==> r == RestartAction::Dispatch,
        begun.in_flight == t.in_flight,
        begun.cap == t.cap,
        t.cap > 0 ==> begun.phase == Phase::Wake,
        t.cap == 0 ==> begun.phase == Phase::Over,
{
}

} // verus!
