use vstd::prelude::*;
use crate::remote::{parse_remote, parse_remote_url, RepoIdentity};
use crate::secrets::{entries_view, parse_entries, parse_secrets, SecretEntry};
use crate::text::copy_bytes;

verus! {

/// The pre-flight step a run failed in.
#[derive(Debug, PartialEq, Eq, Structural, Clone, Copy)]
pub enum Stage {
    ResolvingIdentity,
    ValidatingCredential,
    ParsingSecrets,
}

/// Why a run failed before any secret was published.
#[derive(Debug, PartialEq, Eq, Structural, Clone, Copy)]
pub enum FailReason {
    /// No "origin" remote is configured.
    RemoteMissing,
    /// The local repository metadata could not be read.
    RemoteUnreadable,
    /// The remote URL did not resolve to owner and name.
    BadRemoteUrl,
    /// The identity check came back with this non-success status.
    AuthRejected(u16),
    /// The identity check did not reach the service.
    AuthTransport,
    /// The secrets file could not be read.
    FileUnreadable,
}

/// Why one entry's publish failed.
#[derive(Debug, PartialEq, Eq, Structural, Clone, Copy)]
pub enum ItemFailure {
    /// The upsert came back with this non-success status.
    Http(u16),
    /// The upsert did not reach the service.
    Transport,
    /// No usable recipient key, so the entry could not be encoded.
    RecipientKey,
}

/// How one entry's publish ended.
#[derive(Debug, PartialEq, Eq, Structural, Clone, Copy)]
pub enum PushOutcome {
    Success,
    Failure(ItemFailure),
}

/// One entry's name and how its publish ended.
pub struct PushResult {
    pub key: Vec<u8>,
    pub outcome: PushOutcome,
}

/// What a finished run reports: one result per attempted entry, whether every
/// one succeeded, and whether there was anything to publish at all.
pub struct AggregateReport {
    pub results: Vec<PushResult>,
    pub all_ok: bool,
    pub nothing_to_publish: bool,
}

/// What the resolver reported: the origin remote's URL, or why there is none.
pub enum RemoteEvent {
    /// The configured URL, as bytes.
    Url(Vec<u8>),
    /// No "origin" remote is configured.
    Missing,
    /// A URL is configured but is not valid text.
    NotText,
    /// The local repository metadata could not be read at all.
    Fault,
}

/// What the credential check reported.
#[derive(Debug, PartialEq, Eq, Structural, Clone, Copy)]
pub enum AuthEvent {
    Status(u16),
    Transport,
}

/// What reading the secrets file reported.
pub enum FileEvent {
    Content(Vec<u8>),
    Unreadable,
}

/// How publishing the current entry ended.
#[derive(Debug, PartialEq, Eq, Structural, Clone, Copy)]
pub enum ItemEvent {
    Status(u16),
    Transport,
    KeyUnavailable,
}

/// The outside world's answer to the last action.
pub enum Event {
    Remote(RemoteEvent),
    Auth(AuthEvent),
    File(FileEvent),
    Item(ItemEvent),
    Paced,
}

/// What the runner must do next.
pub enum Action {
    /// Read the origin remote's URL from local repository metadata.
    FetchRemote,
    /// Issue the authenticated identity check.
    VerifyCredential,
    /// Read the secrets file.
    ReadSecretsFile,
    /// Fetch the recipient key, encode entry `index`, and publish it.
    PublishEntry { index: usize },
    /// Wait the fixed pacing delay.
    Pace,
    /// Hand the report to the operator; the run is over.
    Report,
    /// Abort with the recorded failure; the run is over.
    Abort,
}

/// The orchestrator's position in a run.
pub enum RunState {
    AwaitingRemote,
    AwaitingAuth { repo: RepoIdentity },
    AwaitingSecrets { repo: RepoIdentity },
    Publishing { repo: RepoIdentity, entries: Vec<SecretEntry>, results: Vec<PushResult> },
    Pacing { repo: RepoIdentity, entries: Vec<SecretEntry>, results: Vec<PushResult> },
    Done { report: AggregateReport },
    Failed { stage: Stage, reason: FailReason },
}

/// In `Publishing`, entry `results.len()` is in flight; in `Pacing`, every
/// entry up to `results.len()` is settled.
pub open spec fn state_wf(state: RunState) -> bool {
    match state {
        RunState::Publishing { entries, results, .. } => results@.len() < entries@.len(),
        RunState::Pacing { entries, results, .. } => results@.len() <= entries@.len(),
        _ => true,
    }
}

/// Which answer each state awaits. `Done` and `Failed` await nothing.
pub open spec fn event_fits(state: RunState, event: Event) -> bool {
    match state {
        RunState::AwaitingRemote => event is Remote,
        RunState::AwaitingAuth { .. } => event is Auth,
        RunState::AwaitingSecrets { .. } => event is File,
        RunState::Publishing { .. } => event is Item,
        RunState::Pacing { .. } => event is Paced,
        RunState::Done { .. } => false,
        RunState::Failed { .. } => false,
    }
}

/// The result one entry's publish event records.
pub open spec fn outcome_of_item(ev: ItemEvent) -> PushOutcome {
    match ev {
        ItemEvent::Status(s) => if 200 <= s && s <= 299 {
            PushOutcome::Success
        } else {
            PushOutcome::Failure(ItemFailure::Http(s))
        },
        ItemEvent::Transport => PushOutcome::Failure(ItemFailure::Transport),
        ItemEvent::KeyUnavailable => PushOutcome::Failure(ItemFailure::RecipientKey),
    }
}

pub open spec fn all_ok_of(results: Seq<PushResult>) -> bool {
    forall|i: int| 0 <= i < results.len() ==> results[i].outcome is Success
}

fn outcome_for(ev: ItemEvent) -> (r: PushOutcome)
    ensures
        r == outcome_of_item(ev),
{
    match ev {
        ItemEvent::Status(s) => if 200 <= s && s <= 299 {
            PushOutcome::Success
        } else {
            PushOutcome::Failure(ItemFailure::Http(s))
        },
        ItemEvent::Transport => PushOutcome::Failure(ItemFailure::Transport),
        ItemEvent::KeyUnavailable => PushOutcome::Failure(ItemFailure::RecipientKey),
    }
}

fn results_all_ok(results: &Vec<PushResult>) -> (r: bool)
    ensures
        r == all_ok_of(results@),
{
    let mut i: usize = 0;
    while i < results.len()
        invariant
            i <= results@.len(),
            forall|j: int| 0 <= j < i ==> results@[j].outcome is Success,
        decreases results@.len() - i,
    {
        match results[i].outcome {
            PushOutcome::Success => {},
            PushOutcome::Failure(_) => {
                return false;
            },
        }
        i = i + 1;
    }
    true
}

/// Everything one transition promises, state by state. Pre-flight answers
/// either advance the run or end it in `Failed` with the exact stage and
/// reason; a publish answer only appends that entry's outcome; pacing either
/// launches the next entry or closes the run with the aggregate report.
pub open spec fn step_post(state: RunState, event: Event, next: RunState, action: Action) -> bool {
    match state {
        RunState::AwaitingRemote => match event {
            Event::Remote(RemoteEvent::Url(u)) => match parse_remote(u@) {
                Some(p) => (next matches RunState::AwaitingAuth { repo } && p == (
                    repo.owner@,
                    repo.name@,
                ) && action is VerifyCredential),
                None => next == (RunState::Failed {
                    stage: Stage::ResolvingIdentity,
                    reason: FailReason::BadRemoteUrl,
                }) && action is Abort,
            },
            Event::Remote(RemoteEvent::Missing) => next == (RunState::Failed {
                stage: Stage::ResolvingIdentity,
                reason: FailReason::RemoteMissing,
            }) && action is Abort,
            Event::Remote(RemoteEvent::NotText) => next == (RunState::Failed {
                stage: Stage::ResolvingIdentity,
                reason: FailReason::BadRemoteUrl,
            }) && action is Abort,
            Event::Remote(RemoteEvent::Fault) => next == (RunState::Failed {
                stage: Stage::ResolvingIdentity,
                reason: FailReason::RemoteUnreadable,
            }) && action is Abort,
            _ => true,
        },
        RunState::AwaitingAuth { repo: rp } => match event {
            Event::Auth(AuthEvent::Status(s)) => if 200 <= s && s <= 299 {
                (next matches RunState::AwaitingSecrets { repo } && repo == rp
                    && action is ReadSecretsFile)
            } else {
                next == (RunState::Failed {
                    stage: Stage::ValidatingCredential,
                    reason: FailReason::AuthRejected(s),
                }) && action is Abort
            },
            Event::Auth(AuthEvent::Transport) => next == (RunState::Failed {
                stage: Stage::ValidatingCredential,
                reason: FailReason::AuthTransport,
            }) && action is Abort,
            _ => true,
        },
        RunState::AwaitingSecrets { repo: rp } => match event {
            Event::File(FileEvent::Content(t)) => if parse_entries(t@).len() == 0 {
                (next matches RunState::Done { report } && report.results@.len() == 0
                    && report.all_ok && report.nothing_to_publish && action is Report)
            } else {
                (next matches RunState::Publishing { repo, entries, results } && repo == rp
                    && entries_view(entries@) == parse_entries(t@) && results@.len() == 0
                    && action == (Action::PublishEntry { index: 0 }))
            },
            Event::File(FileEvent::Unreadable) => next == (RunState::Failed {
                stage: Stage::ParsingSecrets,
                reason: FailReason::FileUnreadable,
            }) && action is Abort,
            _ => true,
        },
        RunState::Publishing { repo: rp, entries: en, results: rs } => match event {
            Event::Item(ev) => (next matches RunState::Pacing { repo, entries, results } && repo
                == rp && entries == en && results@.len() == rs@.len() + 1 && (forall|i: int|
                0 <= i < rs@.len() ==> results@[i] == rs@[i]) && results@[rs@.len() as int].key@
                == en@[rs@.len() as int].key@ && results@[rs@.len() as int].outcome
                == outcome_of_item(ev) && action is Pace),
            _ => true,
        },
        RunState::Pacing { repo: rp, entries: en, results: rs } => match event {
            Event::Paced => if rs@.len() < en@.len() {
                (next matches RunState::Publishing { repo, entries, results } && repo == rp
                    && entries == en && results == rs && action == (Action::PublishEntry {
                    index: rs@.len() as usize,
                }))
            } else {
                (next matches RunState::Done { report } && report.results == rs && report.all_ok
                    == all_ok_of(rs@) && !report.nothing_to_publish && action is Report)
            },
            _ => true,
        },
        RunState::Done { .. } => true,
        RunState::Failed { .. } => true,
    }
}

/// A fresh run: nothing resolved yet, first ask for the remote URL.
pub fn start() -> (r: (RunState, Action))
    ensures
        r.0 is AwaitingRemote,
        r.1 is FetchRemote,
        state_wf(r.0),
{
    (RunState::AwaitingRemote, Action::FetchRemote)
}

/// One transition of the run: consume the answer to the previous action and
/// say what to do next. Pre-flight failures end the run at once; a publish
/// failure only records that entry's outcome, and the run carries on with the
/// next entry after the pacing delay, whatever the outcome was.
pub fn step(state: RunState, event: Event) -> (r: (RunState, Action))
    requires
        state_wf(state),
        event_fits(state, event),
    ensures
        state_wf(r.0),
        step_post(state, event, r.0, r.1),
{
    match state {
        RunState::AwaitingRemote => match event {
            Event::Remote(RemoteEvent::Url(u)) => match parse_remote_url(&u) {
                Ok(repo) => (RunState::AwaitingAuth { repo }, Action::VerifyCredential),
                Err(_) => (
                    RunState::Failed {
                        stage: Stage::ResolvingIdentity,
                        reason: FailReason::BadRemoteUrl,
                    },
                    Action::Abort,
                ),
            },
            Event::Remote(RemoteEvent::Missing) => (
                RunState::Failed {
                    stage: Stage::ResolvingIdentity,
                    reason: FailReason::RemoteMissing,
                },
                Action::Abort,
            ),
            Event::Remote(RemoteEvent::NotText) => (
                RunState::Failed {
                    stage: Stage::ResolvingIdentity,
                    reason: FailReason::BadRemoteUrl,
                },
                Action::Abort,
            ),
            _ => (
                RunState::Failed {
                    stage: Stage::ResolvingIdentity,
                    reason: FailReason::RemoteUnreadable,
                },
                Action::Abort,
            ),
        },
        RunState::AwaitingAuth { repo } => match event {
            Event::Auth(AuthEvent::Status(s)) => if 200 <= s && s <= 299 {
                (RunState::AwaitingSecrets { repo }, Action::ReadSecretsFile)
            } else {
                (
                    RunState::Failed {
                        stage: Stage::ValidatingCredential,
                        reason: FailReason::AuthRejected(s),
                    },
                    Action::Abort,
                )
            },
            _ => (
                RunState::Failed {
                    stage: Stage::ValidatingCredential,
                    reason: FailReason::AuthTransport,
                },
                Action::Abort,
            ),
        },
        RunState::AwaitingSecrets { repo } => match event {
            Event::File(FileEvent::Content(t)) => {
                let entries = parse_secrets(&t);
                if entries.len() == 0 {
                    (
                        RunState::Done {
                            report: AggregateReport {
                                results: Vec::new(),
                                all_ok: true,
                                nothing_to_publish: true,
                            },
                        },
                        Action::Report,
                    )
                } else {
                    (
                        RunState::Publishing { repo, entries, results: Vec::new() },
                        Action::PublishEntry { index: 0 },
                    )
                }
            },
            _ => (
                RunState::Failed {
                    stage: Stage::ParsingSecrets,
                    reason: FailReason::FileUnreadable,
                },
                Action::Abort,
            ),
        },
        RunState::Publishing { repo, entries, results } => match event {
            Event::Item(ev) => {
                let idx = results.len();
                let key_copy = copy_bytes(&entries[idx].key);
                let oc = outcome_for(ev);
                let mut results2 = results;
                results2.push(PushResult { key: key_copy, outcome: oc });
                (RunState::Pacing { repo, entries, results: results2 }, Action::Pace)
            },
            // a Publishing state awaits an Item answer and nothing else
            _ => (RunState::Publishing { repo, entries, results }, Action::Abort),
        },
        RunState::Pacing { repo, entries, results } => match event {
            Event::Paced => {
                if results.len() < entries.len() {
                    let idx = results.len();
                    (
                        RunState::Publishing { repo, entries, results },
                        Action::PublishEntry { index: idx },
                    )
                } else {
                    let ok = results_all_ok(&results);
                    (
                        RunState::Done {
                            report: AggregateReport {
                                results,
                                all_ok: ok,
                                nothing_to_publish: false,
                            },
                        },
                        Action::Report,
                    )
                }
            },
            // a Pacing state awaits the pacing delay and nothing else
            _ => (RunState::Pacing { repo, entries, results }, Action::Abort),
        },
        RunState::Done { report } => (RunState::Done { report }, Action::Report),
        RunState::Failed { stage, reason } => (RunState::Failed { stage, reason }, Action::Abort),
    }
}

/// A run that has failed, or finished, is over: no event fits it, so nothing
/// more — in particular no publish — can ever be requested of it. Together
/// with `step_post`, a rejected credential ends the run before any entry is
/// attempted.
pub proof fn lemma_terminal_states(state: RunState, event: Event)
    requires
        state is Failed || state is Done,
    ensures
        !event_fits(state, event),
{
}

/// Partial failure isolation: however entry `k`'s publish turned out, the
/// machine records one result in slot `k` and nothing else changes — every
/// earlier slot is identical under either outcome, and `step` paces on to the
/// remaining entries in both cases.
pub proof fn lemma_partial_failure_isolation(prior: Seq<PushResult>, r1: PushResult, r2: PushResult)
    requires
        r1.key@ == r2.key@,
    ensures
        prior.push(r1).len() == prior.push(r2).len(),
        forall|i: int| 0 <= i < prior.len() ==> prior.push(r1)[i] == prior.push(r2)[i],
        prior.push(r1)[prior.len() as int].key@ == prior.push(r2)[prior.len() as int].key@,
{
}

} // verus!
