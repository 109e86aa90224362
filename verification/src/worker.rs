//! The decisions of the download worker that answers one fetch request:
//! search, try up to five of the puzzles found (one after the other, from a
//! position picked by the clock), make the PDF, and report each step to the
//! frontend. The worker is a state machine; its caller performs the
//! actions and feeds back what came of them.

use vstd::prelude::*;
use crate::nonogram::{error_text, FetchError};
use crate::numbers::{decimal, push_decimal};
use crate::protocol::{Message, MSG_ERROR, MSG_PROGRESS, MSG_SUCCESS};

verus! {

/// The most puzzles tried for one request.
pub const MAX_ATTEMPTS: usize = 5;

/// Where the worker stands.
#[derive(Debug, Clone, Copy, PartialEq, Eq, Structural)]
pub enum Phase {
    Idle,
    Searching,
    Downloading,
    Generating,
    Finished,
}

/// The worker's state as the contracts see it.
pub struct WorkerModel {
    pub phase: Phase,
    pub ids: Seq<u32>,
    pub base: nat,
    pub attempts: nat,
    pub attempt: nat,
}

/// The download worker of one fetch request.
pub struct FetchWorker {
    phase: Phase,
    ids: Vec<u32>,
    base: usize,
    attempts: usize,
    attempt: usize,
}

/// What the caller reports back.
pub enum WorkerEvent {
    /// The request arrived.
    Start,
    /// The search ended; `seed` is a clock reading taken right after it.
    SearchDone { result: Result<Vec<u32>, FetchError>, seed: u32 },
    /// The puzzle asked for was downloaded; this is its title.
    PuzzleDownloaded { title: String },
    /// The puzzle asked for could not be downloaded.
    PuzzleFailed,
    /// The PDF was written at `path`.
    PdfSaved { path: String },
    /// The PDF could not be written; `error` says why.
    PdfFailed { error: String },
}

/// What the caller is to do next.
#[derive(Debug, Clone, Copy, PartialEq, Eq, Structural)]
pub enum WorkerAction {
    /// Run the search of the request.
    Search,
    /// Download the puzzle with this number.
    Download(u32),
    /// Make the PDF of the downloaded puzzle.
    GeneratePdf,
    /// Pause, then restart the document library so that it finds the PDF.
    RestartLibrary,
    /// The work is over.
    Stop,
    /// The event did not fit the worker's state; nothing to do.
    Ignore,
}

/// The messages to send to the frontend, and the next action.
pub struct WorkerStep {
    pub messages: Vec<Message>,
    pub action: WorkerAction,
}

/// A message as type and text.
pub open spec fn msg_view(m: Message) -> (u32, Seq<char>) {
    (m.msg_type, m.contents@)
}

/// The messages of a step as types and texts.
pub open spec fn msgs_view(v: Seq<Message>) -> Seq<(u32, Seq<char>)> {
    v.map_values(|m: Message| msg_view(m))
}

/// The progress note announcing the download of puzzle `id`.
pub open spec fn downloading_text(id: u32) -> Seq<char> {
    "Downloading puzzle #"@ + decimal(id as nat) + "..."@
}

/// The progress note after puzzle `id` failed.
pub open spec fn unavailable_text(id: u32) -> Seq<char> {
    "Puzzle #"@ + decimal(id as nat) + " unavailable, trying another..."@
}

/// The number of puzzles tried out of `n` found.
pub open spec fn attempts_for(n: nat) -> nat {
    if n < MAX_ATTEMPTS {
        n
    } else {
        MAX_ATTEMPTS as nat
    }
}

/// The position tried at attempt `k`, counting on from `base` and wrapping
/// round the list of `n` puzzles.
pub open spec fn position(base: nat, k: nat, n: nat) -> nat {
    (base + k) % n
}

impl View for FetchWorker {
    type V = WorkerModel;

    closed spec fn view(&self) -> WorkerModel {
        WorkerModel {
            phase: self.phase,
            ids: self.ids@,
            base: self.base as nat,
            attempts: self.attempts as nat,
            attempt: self.attempt as nat,
        }
    }
}

/// The invariant of a worker: while downloading, the list is not empty, the
/// start position lies in it, and the attempt counter is below the number of
/// puzzles to try, which is the list length but at most five.
pub open spec fn model_wf(m: WorkerModel) -> bool {
    m.phase == Phase::Downloading ==> {
        &&& m.ids.len() > 0
        &&& m.base < m.ids.len()
        &&& m.attempts == attempts_for(m.ids.len())
        &&& m.attempt < m.attempts
    }
}

/// Whether `event` is one the worker waits for in `phase`.
pub open spec fn fits(phase: Phase, event: WorkerEvent) -> bool {
    match event {
        WorkerEvent::Start => phase == Phase::Idle,
        WorkerEvent::SearchDone { .. } => phase == Phase::Searching,
        WorkerEvent::PuzzleDownloaded { .. } => phase == Phase::Downloading,
        WorkerEvent::PuzzleFailed => phase == Phase::Downloading,
        WorkerEvent::PdfSaved { .. } => phase == Phase::Generating,
        WorkerEvent::PdfFailed { .. } => phase == Phase::Generating,
    }
}

fn note(msg_type: u32, text: String) -> (m: Message)
    ensures
        msg_view(m) == (msg_type, text@),
{
    Message { msg_type, contents: text }
}

fn downloading_note(id: u32) -> (m: Message)
    ensures
        msg_view(m) == (MSG_PROGRESS, downloading_text(id)),
{
    let mut s = String::from_str("Downloading puzzle #");
    push_decimal(&mut s, id as u128);
    s.append("...");
    note(MSG_PROGRESS, s)
}

fn unavailable_note(id: u32) -> (m: Message)
    ensures
        msg_view(m) == (MSG_PROGRESS, unavailable_text(id)),
{
    let mut s = String::from_str("Puzzle #");
    push_decimal(&mut s, id as u128);
    s.append(" unavailable, trying another...");
    note(MSG_PROGRESS, s)
}

/// `(base + k) % n` without leaving `usize`.
fn wrapped_position(base: usize, k: usize, n: usize) -> (p: usize)
    requires
        base < n,
        k < n,
    ensures
        p as nat == position(base as nat, k as nat, n as nat),
        p < n,
{
    if k < n - base {
        assert(((base + k) as nat) % (n as nat) == base + k) by (nonlinear_arith)
            requires
                base + k < n,
        ;
        base + k
    } else {
        assert(((base + k) as nat) % (n as nat) == base + k - n) by (nonlinear_arith)
            requires
                n <= base + k < 2 * n,
        ;
        k - (n - base)
    }
}

fn one_message(m: Message) -> (v: Vec<Message>)
    ensures
        msgs_view(v@) == seq![msg_view(m)],
{
    let mut v: Vec<Message> = Vec::new();
    v.push(m);
    assert(msgs_view(v@) =~= seq![msg_view(m)]);
    v
}

impl FetchWorker {
    #[verifier::type_invariant]
    spec fn inv(self) -> bool {
        model_wf(self@)
    }

    /// A worker that has not started.
    pub fn new() -> (w: Self)
        ensures
            w@.phase == Phase::Idle,
            w@.ids.len() == 0,
    {
        FetchWorker { phase: Phase::Idle, ids: Vec::new(), base: 0, attempts: 0, attempt: 0 }
    }

    /// Takes in what came of the last action and decides the next one.
    pub fn step(&mut self, event: WorkerEvent) -> (st: WorkerStep)
        ensures
            model_wf(final(self)@),
            !fits(old(self)@.phase, event) ==> final(self)@ == old(self)@ && st.action
                == WorkerAction::Ignore && st.messages@.len() == 0,
            (old(self)@.phase == Phase::Idle && event is Start) ==> (final(self)@.phase
                == Phase::Searching && st.action == WorkerAction::Search && msgs_view(
                st.messages@,
            ) == seq![(MSG_PROGRESS, "Searching for nonograms..."@)]),
            old(self)@.phase == Phase::Searching ==> (event matches WorkerEvent::SearchDone {
                result: Err(e),
                ..
            } ==> (final(self)@.phase == Phase::Finished && st.action == WorkerAction::Stop
                && msgs_view(st.messages@) == seq![(MSG_ERROR, "Search error: "@ + error_text(e))])),
            old(self)@.phase == Phase::Searching ==> (event matches WorkerEvent::SearchDone {
                result: Ok(ids),
                seed,
            } ==> (if ids@.len() == 0 {
                &&& final(self)@.phase == Phase::Finished
                &&& st.action == WorkerAction::Stop
                &&& msgs_view(st.messages@) == seq![(MSG_ERROR, "No puzzles found."@)]
            } else {
                let n = ids@.len();
                let base = seed as nat % n;
                &&& final(self)@ == WorkerModel {
                    phase: Phase::Downloading,
                    ids: ids@,
                    base: base,
                    attempts: attempts_for(n),
                    attempt: 0,
                }
                &&& st.action == WorkerAction::Download(ids@[base as int])
                &&& msgs_view(st.messages@) == seq![(MSG_PROGRESS, downloading_text(ids@[base as int]))]
            })),
            old(self)@.phase == Phase::Downloading ==> (event matches WorkerEvent::PuzzleDownloaded {
                title,
            } ==> (final(self)@.phase == Phase::Generating && st.action == WorkerAction::GeneratePdf
                && msgs_view(st.messages@) == seq![
                (MSG_PROGRESS, "Generating PDF for '"@ + title@ + "'..."@),
            ])),
            (old(self)@.phase == Phase::Downloading && event is PuzzleFailed) ==> ({
                let o = old(self)@;
                let n = o.ids.len();
                let failed = o.ids[position(o.base, o.attempt, n) as int];
                if o.attempt + 1 < o.attempts {
                    let next = o.ids[position(o.base, o.attempt + 1, n) as int];
                    &&& final(self)@ == WorkerModel { attempt: o.attempt + 1, ..o }
                    &&& st.action == WorkerAction::Download(next)
                    &&& msgs_view(st.messages@) == seq![
                        (MSG_PROGRESS, unavailable_text(failed)),
                        (MSG_PROGRESS, downloading_text(next)),
                    ]
                } else {
                    &&& final(self)@.phase == Phase::Finished
                    &&& st.action == WorkerAction::Stop
                    &&& msgs_view(st.messages@) == seq![
                        (MSG_ERROR, "Could not download any puzzle after multiple attempts."@),
                    ]
                }
            }),
            old(self)@.phase == Phase::Generating ==> (event matches WorkerEvent::PdfSaved { path }
                ==> (final(self)@.phase == Phase::Finished && st.action
                == WorkerAction::RestartLibrary && msgs_view(st.messages@) == seq![
                (MSG_SUCCESS, "SAVED:"@ + path@),
            ])),
            old(self)@.phase == Phase::Generating ==> (event matches WorkerEvent::PdfFailed { error }
                ==> (final(self)@.phase == Phase::Finished && st.action == WorkerAction::Stop
                && msgs_view(st.messages@) == seq![(MSG_ERROR, "PDF error: "@ + error@)])),
    {
        proof {
            use_type_invariant(&*self);
        }
        let finished = FetchWorker {
            phase: Phase::Finished,
            ids: Vec::new(),
            base: 0,
            attempts: 0,
            attempt: 0,
        };
        match event {
            WorkerEvent::Start => {
                if self.phase != Phase::Idle {
                    return WorkerStep { messages: Vec::new(), action: WorkerAction::Ignore };
                }
                *self = FetchWorker {
                    phase: Phase::Searching,
                    ids: Vec::new(),
                    base: 0,
                    attempts: 0,
                    attempt: 0,
                };
                let m = note(MSG_PROGRESS, String::from_str("Searching for nonograms..."));
                WorkerStep { messages: one_message(m), action: WorkerAction::Search }
            },
            WorkerEvent::SearchDone { result, seed } => {
                if self.phase != Phase::Searching {
                    return WorkerStep { messages: Vec::new(), action: WorkerAction::Ignore };
                }
                match result {
                    Err(e) => {
                        *self = finished;
                        let mut text = String::from_str("Search error: ");
                        let why = e.message();
                        text.append(why.as_str());
                        WorkerStep {
                            messages: one_message(note(MSG_ERROR, text)),
                            action: WorkerAction::Stop,
                        }
                    },
                    Ok(ids) => {
                        let n = ids.len();
                        if n == 0 {
                            *self = finished;
                            let m = note(MSG_ERROR, String::from_str("No puzzles found."));
                            return WorkerStep { messages: one_message(m), action: WorkerAction::Stop };
                        }
                        let base = (seed as usize) % n;
                        let attempts = if n < MAX_ATTEMPTS {
                            n
                        } else {
                            MAX_ATTEMPTS
                        };
                        let id = ids[base];
                        *self = FetchWorker { phase: Phase::Downloading, ids, base, attempts, attempt: 0 };
                        WorkerStep {
                            messages: one_message(downloading_note(id)),
                            action: WorkerAction::Download(id),
                        }
                    },
                }
            },
            WorkerEvent::PuzzleDownloaded { title } => {
                if self.phase != Phase::Downloading {
                    return WorkerStep { messages: Vec::new(), action: WorkerAction::Ignore };
                }
                *self = FetchWorker {
                    phase: Phase::Generating,
                    ids: Vec::new(),
                    base: 0,
                    attempts: 0,
                    attempt: 0,
                };
                let mut text = String::from_str("Generating PDF for '");
                text.append(title.as_str());
                text.append("'...");
                WorkerStep {
                    messages: one_message(note(MSG_PROGRESS, text)),
                    action: WorkerAction::GeneratePdf,
                }
            },
            WorkerEvent::PuzzleFailed => {
                if self.phase != Phase::Downloading {
                    return WorkerStep { messages: Vec::new(), action: WorkerAction::Ignore };
                }
                let n = self.ids.len();
                let failed = self.ids[wrapped_position(self.base, self.attempt, n)];
                if self.attempt + 1 < self.attempts {
                    let k = self.attempt + 1;
                    let next = self.ids[wrapped_position(self.base, k, n)];
                    self.attempt = k;
                    let mut messages: Vec<Message> = Vec::new();
                    let m1 = unavailable_note(failed);
                    let m2 = downloading_note(next);
                    messages.push(m1);
                    messages.push(m2);
                    assert(msgs_view(messages@) =~= seq![msg_view(m1), msg_view(m2)]);
                    WorkerStep { messages, action: WorkerAction::Download(next) }
                } else {
                    *self = finished;
                    let m = note(
                        MSG_ERROR,
                        String::from_str("Could not download any puzzle after multiple attempts."),
                    );
                    WorkerStep { messages: one_message(m), action: WorkerAction::Stop }
                }
            },
            WorkerEvent::PdfSaved { path } => {
                if self.phase != Phase::Generating {
                    return WorkerStep { messages: Vec::new(), action: WorkerAction::Ignore };
                }
                *self = finished;
                let mut text = String::from_str("SAVED:");
                text.append(path.as_str());
                WorkerStep {
                    messages: one_message(note(MSG_SUCCESS, text)),
                    action: WorkerAction::RestartLibrary,
                }
            },
            WorkerEvent::PdfFailed { error } => {
                if self.phase != Phase::Generating {
                    return WorkerStep { messages: Vec::new(), action: WorkerAction::Ignore };
                }
                *self = finished;
                let mut text = String::from_str("PDF error: ");
                text.append(error.as_str());
                WorkerStep { messages: one_message(note(MSG_ERROR, text)), action: WorkerAction::Stop }
            },
        }
    }

    /// The phase the worker is in.
    pub fn phase(&self) -> (p: Phase)
        ensures
            p == self@.phase,
    {
        self.phase
    }
}

/// One request tries at most five puzzles and never more than were found,
/// and its attempts land on different positions of the list.
pub proof fn lemma_attempts_distinct(base: nat, n: nat, k1: nat, k2: nat)
    requires
        base < n,
        k1 < k2 < attempts_for(n),
    ensures
        attempts_for(n) <= MAX_ATTEMPTS,
        attempts_for(n) <= n,
        position(base, k1, n) != position(base, k2, n),
        position(base, k1, n) < n,
{
    assert(position(base, k1, n) != position(base, k2, n)) by (nonlinear_arith)
        requires
            base < n,
            k1 < k2 < n,
    {
        vstd::arithmetic::div_mod::lemma_fundamental_div_mod((base + k1) as int, n as int);
        vstd::arithmetic::div_mod::lemma_fundamental_div_mod((base + k2) as int, n as int);
    }
}

} // verus!
