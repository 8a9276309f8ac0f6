//! Decisions of the server's background work: when an idle document is
//! collected, when a changed document is persisted, and what a websocket
//! event leads to.
use vstd::prelude::*;

verus! {

/// Checkpoints in a row that must find a document unreferenced before it is collected.
pub const GC_CHECKPOINTS: u32 = 2;

/// What a garbage-collection checkpoint decides for a document.
#[derive(Debug, Clone, Copy, PartialEq, Eq, Structural)]
pub enum GcDecision {
    /// Look again at the next checkpoint.
    Keep,
    /// Shut the document down and drop it.
    Collect,
    /// The document is gone already; stop watching it.
    Stop,
}

/// Counts the checkpoints in a row at which a document had no reference but
/// the server's own.
pub struct DocGcTracker {
    checkpoints_without_refs: u32,
}

impl DocGcTracker {
    pub closed spec fn count(&self) -> u32 {
        self.checkpoints_without_refs
    }

    pub fn new() -> (r: Self)
        ensures
            r.count() == 0,
    {
        DocGcTracker { checkpoints_without_refs: 0 }
    }

    pub fn checkpoints_without_refs(&self) -> (r: u32)
        ensures
            r == self.count(),
    {
        self.checkpoints_without_refs
    }

    /// A checkpoint: `awareness_refs` is the number of holders of the
    /// document's awareness, or none when the document is no longer loaded.
    /// More than one holder resets the count; otherwise it grows, and the
    /// document is collected once it reaches `GC_CHECKPOINTS`.
    pub fn on_checkpoint(&mut self, awareness_refs: Option<usize>) -> (r: GcDecision)
        requires
            old(self).count() < GC_CHECKPOINTS,
        ensures
            awareness_refs is None ==> r == GcDecision::Stop && final(self).count() == old(self).count(),
            awareness_refs matches Some(n) ==> final(self).count() == checkpoint_count(old(self).count() as nat, n)
                && r == if final(self).count() >= GC_CHECKPOINTS {
                GcDecision::Collect
            } else {
                GcDecision::Keep
            },
            r == GcDecision::Keep ==> final(self).count() < GC_CHECKPOINTS,
    {
        match awareness_refs {
            None => GcDecision::Stop,
            Some(n) => {
                if n > 1 {
                    self.checkpoints_without_refs = 0;
                } else {
                    self.checkpoints_without_refs = self.checkpoints_without_refs + 1;
                }
                if self.checkpoints_without_refs >= GC_CHECKPOINTS {
                    GcDecision::Collect
                } else {
                    GcDecision::Keep
                }
            },
        }
    }

    /// What the collection worker does on an event: a checkpoint as
    /// `on_checkpoint` decides; the server's cancellation stops it without
    /// collecting.
    pub fn on_event(&mut self, event: GcEvent) -> (r: GcDecision)
        requires
            old(self).count() < GC_CHECKPOINTS,
        ensures
            event is Cancelled ==> r == GcDecision::Stop && final(self).count() == old(self).count(),
            event matches GcEvent::Checkpoint(None) ==> r == GcDecision::Stop && final(self).count() == old(self).count(),
            event matches GcEvent::Checkpoint(Some(n)) ==> final(self).count() == checkpoint_count(old(self).count() as nat, n)
                && r == if final(self).count() >= GC_CHECKPOINTS {
                GcDecision::Collect
            } else {
                GcDecision::Keep
            },
    {
        match event {
            GcEvent::Cancelled => GcDecision::Stop,
            GcEvent::Checkpoint(refs) => self.on_checkpoint(refs),
        }
    }
}

/// What the collection worker of a document waits for.
#[derive(Debug, Clone, Copy, PartialEq, Eq, Structural)]
pub enum GcEvent {
    /// A checkpoint passed: the number of holders of the document's
    /// awareness, or none when the document is no longer loaded.
    Checkpoint(Option<usize>),
    /// The server is shutting down.
    Cancelled,
}

/// The count of unreferenced checkpoints in a row after one that found
/// `refs` holders: more than one holder (the server's own and a client's)
/// resets it.
pub open spec fn checkpoint_count(count: nat, refs: usize) -> nat {
    if refs > 1 {
        0
    } else {
        count + 1
    }
}

/// The count after the checkpoints of `refs`, from a fresh tracker.
pub open spec fn count_after(refs: Seq<usize>) -> nat
    decreases refs.len(),
{
    if refs.len() == 0 {
        0
    } else {
        checkpoint_count(count_after(refs.drop_last()), refs.last())
    }
}

/// A document is collected at the checkpoint that completes two checkpoints
/// in a row at which nothing but the server held it: the count reaches
/// `GC_CHECKPOINTS` exactly when the last two checkpoints found at most one
/// holder.
pub proof fn law_collected_after_two_idle_checkpoints(refs: Seq<usize>)
    ensures
        count_after(refs) >= GC_CHECKPOINTS <==> (refs.len() >= 2 && refs.last() <= 1
            && refs[refs.len() - 2] <= 1),
        refs.len() > 0 && refs.last() > 1 ==> count_after(refs) == 0,
{
    if refs.len() > 0 {
        let p = refs.drop_last();
        assert(count_after(refs) == checkpoint_count(count_after(p), refs.last()));
        if p.len() > 0 {
            assert(p.last() == refs[refs.len() - 2]);
            assert(count_after(p) == checkpoint_count(count_after(p.drop_last()), p.last()));
        } else {
            assert(count_after(p) == 0);
        }
    }
}

/// What wakes the persistence worker up.
#[derive(Debug, Clone, Copy, PartialEq, Eq, Structural)]
pub enum PersistSignal {
    /// The document changed.
    Dirty,
    /// Nobody can report changes any more.
    ChannelClosed,
    /// The server is shutting down.
    Cancelled,
    /// A checkpoint passed; `shutdown` tells whether the document was shut down.
    Tick { shutdown: bool },
}

/// Whether the worker persists one last time and stops.
pub open spec fn spec_is_final(s: PersistSignal) -> bool {
    match s {
        PersistSignal::Dirty => false,
        PersistSignal::ChannelClosed => true,
        PersistSignal::Cancelled => true,
        PersistSignal::Tick { shutdown } => shutdown,
    }
}

pub fn is_final_signal(s: PersistSignal) -> (r: bool)
    ensures
        r == spec_is_final(s),
{
    match s {
        PersistSignal::Dirty => false,
        PersistSignal::ChannelClosed => true,
        PersistSignal::Cancelled => true,
        PersistSignal::Tick { shutdown } => shutdown,
    }
}

/// How long to wait before persisting (in nanoseconds): saves are at least a
/// checkpoint apart, except the last one.
pub open spec fn spec_throttle_delay(is_final: bool, since_last_save: u128, checkpoint_freq: u128) -> Option<u128> {
    if !is_final && since_last_save < checkpoint_freq {
        Some((checkpoint_freq - since_last_save) as u128)
    } else {
        None
    }
}

pub fn throttle_delay(is_final: bool, since_last_save: u128, checkpoint_freq: u128) -> (r: Option<u128>)
    ensures
        r == spec_throttle_delay(is_final, since_last_save, checkpoint_freq),
{
    if !is_final && since_last_save < checkpoint_freq {
        Some(checkpoint_freq - since_last_save)
    } else {
        None
    }
}

/// A save that is not the last one, made once its throttling wait ran to
/// its end, comes at least a checkpoint after the previous save: with the
/// previous save at `last`, the signal at `now` and the save at `saved`
/// (times in nanoseconds).
pub proof fn law_saves_are_a_checkpoint_apart(last: u128, now: u128, saved: u128, checkpoint_freq: u128)
    requires
        last <= now <= saved,
        saved >= now + match spec_throttle_delay(false, (now - last) as u128, checkpoint_freq) {
            Some(d) => d as int,
            None => 0int,
        },
    ensures
        saved - last >= checkpoint_freq,
{
}

/// What can end a throttling wait.
#[derive(Debug, Clone, Copy, PartialEq, Eq, Structural)]
pub enum ThrottleSignal {
    Elapsed,
    Dirty,
    ChannelClosed,
    Cancelled,
}

/// Whether the worker keeps waiting: only further changes do not end the wait.
pub fn keeps_throttling(s: ThrottleSignal) -> (r: bool)
    ensures
        r == (s == ThrottleSignal::Dirty),
{
    match s {
        ThrottleSignal::Dirty => true,
        _ => false,
    }
}

/// What the persistence worker does next.
#[derive(Debug, Clone, Copy, PartialEq, Eq, Structural)]
pub enum PersistStep {
    /// Save the document now.
    Persist,
    /// Wait this long (in nanoseconds) before saving, listening meanwhile.
    WaitFor(u128),
    /// Keep waiting: the change that arrived is saved with the pending save.
    KeepWaiting,
}

/// The persistence worker of a document: when it last saved (in
/// nanoseconds on the worker's clock), how far apart saves must be, and
/// whether a save is pending (and whether it is the last one).
pub struct PersistWorker {
    last_save: u128,
    checkpoint_freq: u128,
    pending: Option<bool>,
}

impl PersistWorker {
    pub closed spec fn spec_last_save(&self) -> u128 {
        self.last_save
    }

    pub closed spec fn spec_checkpoint_freq(&self) -> u128 {
        self.checkpoint_freq
    }

    /// Whether a save is pending, and whether it is the last one.
    pub closed spec fn spec_pending(&self) -> Option<bool> {
        self.pending
    }

    /// A worker whose last save ended at `now`, with no save pending.
    pub fn new(now: u128, checkpoint_freq: u128) -> (r: Self)
        ensures
            r.spec_last_save() == now,
            r.spec_checkpoint_freq() == checkpoint_freq,
            r.spec_pending() is None,
    {
        PersistWorker { last_save: now, checkpoint_freq, pending: None }
    }

    /// A signal at `now` while no save is pending. A save is due: at once
    /// when it is the last one or a checkpoint has passed since the last
    /// save, else once the checkpoint has passed.
    pub fn on_signal(&mut self, signal: PersistSignal, now: u128) -> (r: PersistStep)
        requires
            old(self).spec_pending() is None,
            old(self).spec_last_save() <= now,
        ensures
            final(self).spec_last_save() == old(self).spec_last_save(),
            final(self).spec_checkpoint_freq() == old(self).spec_checkpoint_freq(),
            final(self).spec_pending() == Some(spec_is_final(signal)),
            r == match spec_throttle_delay(
                spec_is_final(signal),
                (now - old(self).spec_last_save()) as u128,
                old(self).spec_checkpoint_freq(),
            ) {
                Some(d) => PersistStep::WaitFor(d),
                None => PersistStep::Persist,
            },
            r matches PersistStep::WaitFor(d) ==> now + d == old(self).spec_last_save() + old(self).spec_checkpoint_freq(),
    {
        let is_final = is_final_signal(signal);
        self.pending = Some(is_final);
        match throttle_delay(is_final, now - self.last_save, self.checkpoint_freq) {
            Some(d) => PersistStep::WaitFor(d),
            None => PersistStep::Persist,
        }
    }

    /// Something ended or interrupted the wait for a pending save: further
    /// changes are folded into it; the end of the wait, a closed channel
    /// or the server's cancellation make it due at once.
    pub fn on_throttle(&mut self, signal: ThrottleSignal) -> (r: PersistStep)
        requires
            old(self).spec_pending() is Some,
        ensures
            final(self).spec_last_save() == old(self).spec_last_save(),
            final(self).spec_checkpoint_freq() == old(self).spec_checkpoint_freq(),
            final(self).spec_pending() == old(self).spec_pending(),
            signal == ThrottleSignal::Dirty ==> r == PersistStep::KeepWaiting,
            signal != ThrottleSignal::Dirty ==> r == PersistStep::Persist,
    {
        if keeps_throttling(signal) {
            PersistStep::KeepWaiting
        } else {
            PersistStep::Persist
        }
    }

    /// A save ended at `at`; returns whether it was the last one.
    pub fn on_saved(&mut self, at: u128) -> (r: bool)
        requires
            old(self).spec_pending() is Some,
        ensures
            r == old(self).spec_pending()->0,
            final(self).spec_last_save() == at,
            final(self).spec_checkpoint_freq() == old(self).spec_checkpoint_freq(),
            final(self).spec_pending() is None,
    {
        let last = match self.pending {
            Some(f) => f,
            None => true,
        };
        self.last_save = at;
        self.pending = None;
        last
    }
}

/// A change that is not the last one, signalled at `now`, is saved a
/// checkpoint after the last save: at once when a checkpoint had already
/// passed, else after a wait that ends exactly then (never sooner). Changes
/// that arrive during that wait keep it going (`PersistWorker::on_throttle`)
/// and are saved with it.
pub proof fn law_changes_are_coalesced_into_the_next_save(last_save: u128, now: u128, checkpoint_freq: u128)
    requires
        last_save <= now,
    ensures
        now - last_save >= checkpoint_freq ==> spec_throttle_delay(false, (now - last_save) as u128, checkpoint_freq) is None,
        now - last_save < checkpoint_freq ==> (spec_throttle_delay(false, (now - last_save) as u128, checkpoint_freq)
            matches Some(d) && now + d == last_save + checkpoint_freq),
{
}

/// What arrives on a client's websocket.
#[derive(Debug, Clone, Copy, PartialEq, Eq, Structural)]
pub enum WsEvent {
    Binary,
    Close,
    Error,
    Ended,
    Other,
}

/// What the connection loop does with it.
#[derive(Debug, Clone, Copy, PartialEq, Eq, Structural)]
pub enum WsStep {
    /// Hand the frame to the client connection.
    Handle,
    /// Leave the loop.
    Stop,
    /// Wait for the next event.
    Ignore,
}

pub fn ws_step(e: WsEvent) -> (r: WsStep)
    ensures
        e == WsEvent::Binary ==> r == WsStep::Handle,
        e == WsEvent::Close || e == WsEvent::Error || e == WsEvent::Ended ==> r == WsStep::Stop,
        e == WsEvent::Other ==> r == WsStep::Ignore,
{
    match e {
        WsEvent::Binary => WsStep::Handle,
        WsEvent::Close => WsStep::Stop,
        WsEvent::Error => WsStep::Stop,
        WsEvent::Ended => WsStep::Stop,
        WsEvent::Other => WsStep::Ignore,
    }
}

} // verus!
