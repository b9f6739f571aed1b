//! The readiness poller: a two-stage, deadline-bounded polling state machine.
//!
//! Stage one waits for the handshake file to hold a valid record; stage two
//! waits for the health endpoint to answer successfully. One overall deadline
//! spans both stages. The machine here is pure: the caller reads the file,
//! issues the health request and sleeps between polls, and feeds each outcome
//! in as an event together with the elapsed time.

use vstd::prelude::*;
use crate::base_url::base_url_of;
use crate::base_url::base_url_spec;
use crate::errors::SetupError;
use crate::handshake::parse_handshake;
use crate::handshake::parse_handshake_spec;
use crate::latch::publish_spec;
use crate::latch::BaseUrlLatch;

verus! {

/// The overall deadline shared by both polling stages.
pub const DEADLINE_MS: u64 = 25000;

/// The pause between two reads of the handshake file.
pub const FILE_POLL_INTERVAL_MS: u64 = 80;

/// The pause between two health requests.
pub const HEALTH_POLL_INTERVAL_MS: u64 = 100;

/// The network timeout of a single health request, distinct from the
/// overall deadline.
pub const HEALTH_ATTEMPT_TIMEOUT_MS: u64 = 800;

/// The polling stage a timeout hit.
#[derive(Clone, Copy, PartialEq, Eq, Debug)]
pub enum Stage {
    HandshakeFile,
    HealthCheck,
}

/// The poller's state between two polls.
#[derive(Clone, PartialEq, Eq, Debug)]
pub enum PollState {
    /// Stage one: the handshake file has not yet held a valid record.
    AwaitingHandshakeFile,
    /// Stage two: the record arrived; the health endpoint has not yet
    /// answered successfully. Carries the base URL built from the record.
    AwaitingHealthCheck { base_url: String },
    /// Terminal success: the backend serves at this base URL.
    Ready { base_url: String },
    /// Terminal failure: the deadline elapsed in the named stage.
    TimedOut { stage: Stage },
}

/// The mathematical image of a [`PollState`].
pub enum PollStateModel {
    AwaitFile,
    AwaitHealth { base: Seq<char> },
    Ready { base: Seq<char> },
    TimedOut { stage: Stage },
}

impl View for PollState {
    type V = PollStateModel;

    open spec fn view(&self) -> PollStateModel {
        match self {
            PollState::AwaitingHandshakeFile => PollStateModel::AwaitFile,
            PollState::AwaitingHealthCheck { base_url } => PollStateModel::AwaitHealth {
                base: base_url@,
            },
            PollState::Ready { base_url } => PollStateModel::Ready { base: base_url@ },
            PollState::TimedOut { stage } => PollStateModel::TimedOut { stage: *stage },
        }
    }
}

/// One poll outcome, handed to the machine by the caller.
#[derive(Clone, PartialEq, Eq, Debug)]
pub enum PollEvent {
    /// What a read of the handshake file yielded: `None` when the file could
    /// not be read, otherwise its text (possibly truncated or malformed).
    FileContent { content: Option<String> },
    /// Whether one health request came back with a success status. Network
    /// errors, error statuses and per-attempt timeouts all count as `false`.
    HealthResponse { success: bool },
}

/// The mathematical image of a [`PollEvent`].
pub enum PollEventModel {
    FileContent { content: Option<Seq<char>> },
    HealthResponse { success: bool },
}

impl View for PollEvent {
    type V = PollEventModel;

    open spec fn view(&self) -> PollEventModel {
        match self {
            PollEvent::FileContent { content } => PollEventModel::FileContent {
                content: match content {
                    Some(t) => Some(t@),
                    None => None,
                },
            },
            PollEvent::HealthResponse { success } => PollEventModel::HealthResponse {
                success: *success,
            },
        }
    }
}

/// Whether an event carries handshake-file text that denotes a valid record.
pub open spec fn ev_valid_file(ev: PollEventModel) -> bool {
    match ev {
        PollEventModel::FileContent { content: Some(t) } => parse_handshake_spec(t) is Some,
        _ => false,
    }
}

/// Whether an event is a successful health response.
pub open spec fn ev_health_success(ev: PollEventModel) -> bool {
    ev == (PollEventModel::HealthResponse { success: true })
}

/// How one poll outcome at a given elapsed time advances the machine.
///
/// The deadline is checked first, as the poll loop does before each attempt;
/// terminal states absorb every event; an event of the other stage's kind
/// leaves the state unchanged.
pub open spec fn step_spec(st: PollStateModel, elapsed_ms: u64, ev: PollEventModel) -> PollStateModel {
    match st {
        PollStateModel::AwaitFile => {
            if elapsed_ms > DEADLINE_MS {
                PollStateModel::TimedOut { stage: Stage::HandshakeFile }
            } else {
                match ev {
                    PollEventModel::FileContent { content: Some(t) } => {
                        match parse_handshake_spec(t) {
                            Some(rec) => PollStateModel::AwaitHealth {
                                base: base_url_spec(rec.0, rec.1 as nat),
                            },
                            None => PollStateModel::AwaitFile,
                        }
                    },
                    _ => PollStateModel::AwaitFile,
                }
            }
        },
        PollStateModel::AwaitHealth { base } => {
            if elapsed_ms > DEADLINE_MS {
                PollStateModel::TimedOut { stage: Stage::HealthCheck }
            } else if ev_health_success(ev) {
                PollStateModel::Ready { base }
            } else {
                PollStateModel::AwaitHealth { base }
            }
        },
        PollStateModel::Ready { base } => PollStateModel::Ready { base },
        PollStateModel::TimedOut { stage } => PollStateModel::TimedOut { stage },
    }
}

/// Advances the poller by one poll outcome observed `elapsed_ms` after the
/// poll started.
pub fn poll_step(st: PollState, elapsed_ms: u64, ev: PollEvent) -> (r: PollState)
    ensures
        r@ == step_spec(st@, elapsed_ms, ev@),
{
    match st {
        PollState::AwaitingHandshakeFile => {
            if elapsed_ms > DEADLINE_MS {
                PollState::TimedOut { stage: Stage::HandshakeFile }
            } else {
                match ev {
                    PollEvent::FileContent { content: Some(text) } => {
                        match parse_handshake(text.as_str()) {
                            Some(rec) => {
                                let base = base_url_of(rec.host.as_str(), rec.port);
                                PollState::AwaitingHealthCheck { base_url: base }
                            },
                            None => PollState::AwaitingHandshakeFile,
                        }
                    },
                    _ => PollState::AwaitingHandshakeFile,
                }
            }
        },
        PollState::AwaitingHealthCheck { base_url } => {
            if elapsed_ms > DEADLINE_MS {
                PollState::TimedOut { stage: Stage::HealthCheck }
            } else {
                match ev {
                    PollEvent::HealthResponse { success: true } => PollState::Ready { base_url },
                    _ => PollState::AwaitingHealthCheck { base_url },
                }
            }
        },
        PollState::Ready { base_url } => PollState::Ready { base_url },
        PollState::TimedOut { stage } => PollState::TimedOut { stage },
    }
}

/// A poll that reads malformed, partial or missing handshake content within
/// the deadline is absorbed: the poller stays in the file stage and polling
/// simply goes on.
pub proof fn lemma_malformed_file_keeps_polling(elapsed_ms: u64, ev: PollEventModel)
    requires
        !ev_valid_file(ev),
        elapsed_ms <= DEADLINE_MS,
    ensures
        step_spec(PollStateModel::AwaitFile, elapsed_ms, ev) == PollStateModel::AwaitFile,
{
}

/// Carries a finished poll into the shared state: a ready outcome publishes
/// its base URL into the latch (the setup phase's single write), while a
/// timeout leaves the latch exactly as it was and surfaces the fatal error of
/// the stage that timed out.
pub fn publish_poll_outcome(latch: &mut BaseUrlLatch, outcome: PollState) -> (r: Result<
    (),
    SetupError,
>)
    requires
        outcome@ is Ready || outcome@ is TimedOut,
    ensures
        match outcome@ {
            PollStateModel::Ready { base } => final(latch)@ == publish_spec(old(latch)@, base)
                && r is Ok,
            PollStateModel::TimedOut { stage } => final(latch)@ == old(latch)@ && r == Err::<
                (),
                SetupError,
            >(
                if stage == Stage::HandshakeFile {
                    SetupError::HandshakeTimeout
                } else {
                    SetupError::HealthTimeout
                },
            ),
            _ => false,
        },
{
    match outcome {
        PollState::Ready { base_url } => {
            let _ = latch.publish(base_url);
            Ok(())
        },
        PollState::TimedOut { stage } => match stage {
            Stage::HandshakeFile => Err(SetupError::HandshakeTimeout),
            Stage::HealthCheck => Err(SetupError::HealthTimeout),
        },
        _ => vstd::pervasive::unreached(),
    }
}

/// The state after feeding a whole sequence of timed poll outcomes, in order,
/// from `st`.
pub open spec fn run_spec(st: PollStateModel, events: Seq<(u64, PollEventModel)>) -> PollStateModel
    decreases events.len(),
{
    if events.len() == 0 {
        st
    } else {
        run_spec(step_spec(st, events[0].0, events[0].1), events.subrange(1, events.len() as int))
    }
}

/// Both terminal states absorb every further event: a poller that succeeded
/// stays ready, one that timed out stays timed out.
pub proof fn lemma_terminal_absorbs(st: PollStateModel, events: Seq<(u64, PollEventModel)>)
    requires
        st is Ready || st is TimedOut,
    ensures
        run_spec(st, events) == st,
    decreases events.len(),
{
    if events.len() > 0 {
        assert(step_spec(st, events[0].0, events[0].1) == st);
        lemma_terminal_absorbs(st, events.subrange(1, events.len() as int));
    }
}

proof fn lemma_file_stage_run(events: Seq<(u64, PollEventModel)>)
    requires
        forall|i: int| 0 <= i < events.len() ==> !ev_valid_file(#[trigger] events[i].1),
    ensures
        run_spec(PollStateModel::AwaitFile, events) == if (exists|i: int|
            0 <= i < events.len() && #[trigger] events[i].0 > DEADLINE_MS) {
            PollStateModel::TimedOut { stage: Stage::HandshakeFile }
        } else {
            PollStateModel::AwaitFile
        },
    decreases events.len(),
{
    if events.len() > 0 {
        let tail = events.subrange(1, events.len() as int);
        assert(forall|i: int| 0 <= i < tail.len() ==> tail[i] == events[i + 1]);
        if events[0].0 > DEADLINE_MS {
            lemma_terminal_absorbs(
                PollStateModel::TimedOut { stage: Stage::HandshakeFile },
                tail,
            );
        } else {
            assert(!ev_valid_file(events[0].1));
            assert(step_spec(PollStateModel::AwaitFile, events[0].0, events[0].1)
                == PollStateModel::AwaitFile);
            lemma_file_stage_run(tail);
            if exists|i: int| 0 <= i < events.len() && #[trigger] events[i].0 > DEADLINE_MS {
                let i = choose|i: int| 0 <= i < events.len() && #[trigger] events[i].0
                    > DEADLINE_MS;
                assert(i >= 1);
                assert(tail[i - 1].0 > DEADLINE_MS);
            }
        }
    }
}

/// If the handshake file never holds a valid record within the deadline and
/// the deadline passes, the poller ends in a handshake-stage timeout.
pub proof fn lemma_handshake_timeout(events: Seq<(u64, PollEventModel)>)
    requires
        forall|i: int| 0 <= i < events.len() ==> !ev_valid_file(#[trigger] events[i].1),
        exists|i: int| 0 <= i < events.len() && #[trigger] events[i].0 > DEADLINE_MS,
    ensures
        run_spec(PollStateModel::AwaitFile, events) == (PollStateModel::TimedOut {
            stage: Stage::HandshakeFile,
        }),
{
    lemma_file_stage_run(events);
}

proof fn lemma_health_fail_run(base: Seq<char>, events: Seq<(u64, PollEventModel)>)
    requires
        forall|i: int| 0 <= i < events.len() ==> !ev_health_success(#[trigger] events[i].1),
    ensures
        run_spec(PollStateModel::AwaitHealth { base }, events) == if (exists|i: int|
            0 <= i < events.len() && #[trigger] events[i].0 > DEADLINE_MS) {
            PollStateModel::TimedOut { stage: Stage::HealthCheck }
        } else {
            PollStateModel::AwaitHealth { base }
        },
    decreases events.len(),
{
    if events.len() > 0 {
        let tail = events.subrange(1, events.len() as int);
        assert(forall|i: int| 0 <= i < tail.len() ==> tail[i] == events[i + 1]);
        if events[0].0 > DEADLINE_MS {
            lemma_terminal_absorbs(PollStateModel::TimedOut { stage: Stage::HealthCheck }, tail);
        } else {
            assert(!ev_health_success(events[0].1));
            lemma_health_fail_run(base, tail);
            if exists|i: int| 0 <= i < events.len() && #[trigger] events[i].0 > DEADLINE_MS {
                let i = choose|i: int| 0 <= i < events.len() && #[trigger] events[i].0
                    > DEADLINE_MS;
                assert(i >= 1);
                assert(tail[i - 1].0 > DEADLINE_MS);
            }
        }
    }
}

/// If the handshake file holds a valid record within the deadline but the
/// health endpoint never answers successfully and the deadline passes, the
/// poller ends in a health-stage timeout.
pub proof fn lemma_health_timeout(events: Seq<(u64, PollEventModel)>)
    requires
        forall|a: int, b: int|
            0 <= a <= b < events.len() ==> #[trigger] events[a].0 <= #[trigger] events[b].0,
        exists|k: int|
            0 <= k < events.len() && ev_valid_file(#[trigger] events[k].1) && events[k].0
                <= DEADLINE_MS,
        forall|i: int| 0 <= i < events.len() ==> !ev_health_success(#[trigger] events[i].1),
        exists|j: int| 0 <= j < events.len() && #[trigger] events[j].0 > DEADLINE_MS,
    ensures
        run_spec(PollStateModel::AwaitFile, events) == (PollStateModel::TimedOut {
            stage: Stage::HealthCheck,
        }),
    decreases events.len(),
{
    let k = choose|k: int|
        0 <= k < events.len() && ev_valid_file(#[trigger] events[k].1) && events[k].0
            <= DEADLINE_MS;
    let j = choose|j: int| 0 <= j < events.len() && #[trigger] events[j].0 > DEADLINE_MS;
    assert(events[0].0 <= events[k].0);
    let tail = events.subrange(1, events.len() as int);
    assert(forall|i: int| 0 <= i < tail.len() ==> tail[i] == events[i + 1]);
    let st1 = step_spec(PollStateModel::AwaitFile, events[0].0, events[0].1);
    if ev_valid_file(events[0].1) {
        assert(st1 is AwaitHealth);
        let b = choose|b: Seq<char>| st1 == (PollStateModel::AwaitHealth { base: b });
        assert(j >= 1);
        assert(tail[j - 1].0 > DEADLINE_MS);
        lemma_health_fail_run(b, tail);
    } else {
        assert(st1 == PollStateModel::AwaitFile);
        assert(k >= 1);
        assert(tail[k - 1].1 == events[k].1 && tail[k - 1].0 == events[k].0);
        assert(j >= 1);
        assert(tail[j - 1].0 > DEADLINE_MS);
        lemma_health_timeout(tail);
    }
}

proof fn lemma_health_success_run(base: Seq<char>, events: Seq<(u64, PollEventModel)>)
    requires
        forall|a: int, b: int|
            0 <= a <= b < events.len() ==> #[trigger] events[a].0 <= #[trigger] events[b].0,
        exists|j: int|
            0 <= j < events.len() && ev_health_success(#[trigger] events[j].1) && events[j].0
                <= DEADLINE_MS,
    ensures
        run_spec(PollStateModel::AwaitHealth { base }, events) == (PollStateModel::Ready { base }),
    decreases events.len(),
{
    let j = choose|j: int|
        0 <= j < events.len() && ev_health_success(#[trigger] events[j].1) && events[j].0
            <= DEADLINE_MS;
    assert(events[0].0 <= events[j].0);
    let tail = events.subrange(1, events.len() as int);
    assert(forall|i: int| 0 <= i < tail.len() ==> tail[i] == events[i + 1]);
    if ev_health_success(events[0].1) {
        lemma_terminal_absorbs(PollStateModel::Ready { base }, tail);
    } else {
        assert(j >= 1);
        assert(tail[j - 1].1 == events[j].1 && tail[j - 1].0 == events[j].0);
        lemma_health_success_run(base, tail);
    }
}

/// If the handshake file holds a valid record and, later, the health endpoint
/// answers successfully, both within the deadline, the poller ends ready.
pub proof fn lemma_poller_succeeds(events: Seq<(u64, PollEventModel)>)
    requires
        forall|a: int, b: int|
            0 <= a <= b < events.len() ==> #[trigger] events[a].0 <= #[trigger] events[b].0,
        exists|k: int, j: int|
            0 <= k < j < events.len() && ev_valid_file(#[trigger] events[k].1)
                && ev_health_success(#[trigger] events[j].1) && events[j].0 <= DEADLINE_MS,
    ensures
        run_spec(PollStateModel::AwaitFile, events) is Ready,
    decreases events.len(),
{
    let (k, j) = choose|k: int, j: int|
        0 <= k < j < events.len() && ev_valid_file(#[trigger] events[k].1) && ev_health_success(
            #[trigger] events[j].1,
        ) && events[j].0 <= DEADLINE_MS;
    assert(events[0].0 <= events[j].0);
    let tail = events.subrange(1, events.len() as int);
    assert(forall|i: int| 0 <= i < tail.len() ==> tail[i] == events[i + 1]);
    let st1 = step_spec(PollStateModel::AwaitFile, events[0].0, events[0].1);
    if ev_valid_file(events[0].1) {
        assert(st1 is AwaitHealth);
        let b = choose|b: Seq<char>| st1 == (PollStateModel::AwaitHealth { base: b });
        assert(j >= 1);
        assert(tail[j - 1].1 == events[j].1 && tail[j - 1].0 == events[j].0);
        lemma_health_success_run(b, tail);
    } else {
        assert(st1 == PollStateModel::AwaitFile);
        assert(k >= 1);
        assert(tail[k - 1].1 == events[k].1);
        assert(tail[j - 1].1 == events[j].1 && tail[j - 1].0 == events[j].0);
        lemma_poller_succeeds(tail);
    }
}

/// The sharper form of the success law: the URL the poller ends ready with is
/// exactly the one built from the first valid handshake record it read.
pub proof fn lemma_poller_succeeds_with_url(
    events: Seq<(u64, PollEventModel)>,
    k: int,
    j: int,
    t: Seq<char>,
    h: Seq<char>,
    p: u16,
    d: i64,
)
    requires
        forall|a: int, b: int|
            0 <= a <= b < events.len() ==> #[trigger] events[a].0 <= #[trigger] events[b].0,
        0 <= k < j < events.len(),
        events[k].1 == (PollEventModel::FileContent { content: Some(t) }),
        parse_handshake_spec(t) == Some((h, p, d)),
        forall|i: int| 0 <= i < k ==> !ev_valid_file(#[trigger] events[i].1),
        ev_health_success(events[j].1),
        events[j].0 <= DEADLINE_MS,
    ensures
        run_spec(PollStateModel::AwaitFile, events) == (PollStateModel::Ready {
            base: base_url_spec(h, p as nat),
        }),
    decreases events.len(),
{
    assert(events[0].0 <= events[j].0);
    let tail = events.subrange(1, events.len() as int);
    assert(forall|i: int| 0 <= i < tail.len() ==> tail[i] == events[i + 1]);
    if k == 0 {
        let st1 = step_spec(PollStateModel::AwaitFile, events[0].0, events[0].1);
        assert(st1 == (PollStateModel::AwaitHealth { base: base_url_spec(h, p as nat) }));
        assert(tail[j - 1].1 == events[j].1 && tail[j - 1].0 == events[j].0);
        lemma_health_success_run(base_url_spec(h, p as nat), tail);
    } else {
        assert(!ev_valid_file(events[0].1));
        assert(step_spec(PollStateModel::AwaitFile, events[0].0, events[0].1)
            == PollStateModel::AwaitFile);
        assert(tail[k - 1].1 == events[k].1);
        assert(tail[j - 1].1 == events[j].1 && tail[j - 1].0 == events[j].0);
        assert(forall|i: int| 0 <= i < k - 1 ==> !ev_valid_file(#[trigger] tail[i].1));
        lemma_poller_succeeds_with_url(tail, k - 1, j - 1, t, h, p, d);
    }
}

} // verus!
