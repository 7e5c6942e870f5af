//! The installer of one plugin, as a machine that is told what happened and
//! says what is to be shown and done next.
//!
//! The caller does the work: it makes the requests, waits, unpacks the
//! archive and passes the progress states on. An installer goes through the
//! phases `Downloading`, `Extracting` and `Installed` in this order; a
//! failure in any of them ends it in `Failed`.

use crate::address::parse_error_text;
use crate::fetch::{
    respond, response_view, FetchError, FetchErrorView, FetchStep, FetchStepView, Fetcher,
    FetcherView, Response, ResponseView, RetryPolicy,
};
use crate::plugin::{resolved, Plugin, PluginView};
use vstd::prelude::*;
use vstd::string::*;

verus! {

/// What is shown of a plugin while it is installed.
#[derive(Clone, Debug, PartialEq, Eq)]
pub enum InstallStateKind {
    Downloading,
    Extracting,
    Installed,
    /// The fetch failed and is tried again; the retries count from 1.
    Retry(u32),
    /// The installation failed, for the cause given.
    Error(String),
}

/// An `InstallStateKind`, as plain values.
pub enum Status {
    Downloading,
    Extracting,
    Installed,
    Retry(nat),
    Error(Seq<char>),
}

impl View for InstallStateKind {
    type V = Status;

    open spec fn view(&self) -> Status {
        match self {
            InstallStateKind::Downloading => Status::Downloading,
            InstallStateKind::Extracting => Status::Extracting,
            InstallStateKind::Installed => Status::Installed,
            InstallStateKind::Retry(attempt) => Status::Retry(*attempt as nat),
            InstallStateKind::Error(cause) => Status::Error(cause@),
        }
    }
}

impl Status {
    /// After this status nothing more is shown of the plugin.
    pub open spec fn is_terminal(self) -> bool {
        self is Installed || self is Error
    }
}

/// One progress report: a status, and the name of the plugin it is about.
#[derive(Clone, Debug, PartialEq, Eq)]
pub struct InstallState {
    pub status: InstallStateKind,
    pub name: String,
}

/// An `InstallState`, as plain values.
pub struct InstallStateView {
    pub status: Status,
    pub name: Seq<char>,
}

impl View for InstallState {
    type V = InstallStateView;

    open spec fn view(&self) -> InstallStateView {
        InstallStateView { status: self.status@, name: self.name@ }
    }
}

/// Why an installation failed.
#[derive(Clone, Debug, PartialEq, Eq)]
pub enum InstallError {
    /// The plugin has no valid URL; the cause is the URL parser's.
    Resolve(String),
    /// The archive could not be fetched.
    Fetch(FetchError),
    /// The archive could not be unpacked; the cause is the unpacker's.
    Extract(String),
}

/// An `InstallError`, as plain values.
pub enum InstallErrorView {
    Resolve(Seq<char>),
    Fetch(FetchErrorView),
    Extract(Seq<char>),
}

impl View for InstallError {
    type V = InstallErrorView;

    open spec fn view(&self) -> InstallErrorView {
        match self {
            InstallError::Resolve(cause) => InstallErrorView::Resolve(cause@),
            InstallError::Fetch(e) => InstallErrorView::Fetch(e@),
            InstallError::Extract(cause) => InstallErrorView::Extract(cause@),
        }
    }
}

impl InstallErrorView {
    /// The cause shown with the `Error` status.
    pub open spec fn message(self) -> Seq<char> {
        match self {
            InstallErrorView::Resolve(cause) => cause,
            InstallErrorView::Fetch(FetchErrorView::Exhausted(_)) => "failed downloading plugin"@,
            InstallErrorView::Fetch(FetchErrorView::NotFound) => "plugin does not exist (404)"@,
            InstallErrorView::Extract(_) => "failed to extract plugin archive"@,
        }
    }
}

impl InstallError {
    /// The cause shown with the `Error` status.
    pub fn to_string(&self) -> (text: String)
        ensures
            text@ == self@.message(),
    {
        match self {
            InstallError::Resolve(cause) => cause.clone(),
            InstallError::Fetch(e) => e.to_string(),
            InstallError::Extract(_) => String::from_str("failed to extract plugin archive"),
        }
    }
}

/// Where an installation stands.
#[derive(Clone, Copy, Debug, PartialEq, Eq, Structural)]
pub enum Phase {
    /// Nothing has been shown or done yet.
    Ready,
    Downloading,
    Extracting,
    Installed,
    Failed,
}

impl Phase {
    /// No event moves an installation out of this phase.
    pub open spec fn is_terminal(self) -> bool {
        self == Phase::Installed || self == Phase::Failed
    }
}

/// What the caller reports to the installer.
#[derive(Debug, PartialEq, Eq)]
pub enum Event {
    /// The plugin's URL, or the cause for which it has none.
    Resolved(Result<String, String>),
    /// The response to the request that was asked for.
    Fetched(Response),
    /// The archive was unpacked, or could not be, for the cause given.
    Extracted(Result<(), String>),
}

/// An `Event`, as plain values.
pub enum EventView {
    Resolved(Result<Seq<char>, Seq<char>>),
    Fetched(ResponseView),
    Extracted(Result<(), Seq<char>>),
}

impl View for Event {
    type V = EventView;

    open spec fn view(&self) -> EventView {
        match self {
            Event::Resolved(Ok(url)) => EventView::Resolved(Ok(url@)),
            Event::Resolved(Err(cause)) => EventView::Resolved(Err(cause@)),
            Event::Fetched(response) => EventView::Fetched(response_view(*response)),
            Event::Extracted(Ok(_)) => EventView::Extracted(Ok(())),
            Event::Extracted(Err(cause)) => EventView::Extracted(Err(cause@)),
        }
    }
}

/// What the caller is to do next.
#[derive(Debug, PartialEq, Eq)]
pub enum Action {
    /// Wait for `wait_millis`, request `url` and report the response.
    Fetch { url: String, wait_millis: u64 },
    /// Unpack `bytes` into the target directory and report how it went.
    Extract { bytes: Vec<u8> },
    /// The installation is over, with this result.
    Finish(Result<(), InstallError>),
    /// The event did not belong to the phase; nothing has changed.
    Ignore,
}

/// An `Action`, as plain values.
pub enum ActionView {
    Fetch { url: Seq<char>, wait_millis: nat },
    Extract { bytes: Seq<u8> },
    Finish(Result<(), InstallErrorView>),
    Ignore,
}

impl View for Action {
    type V = ActionView;

    open spec fn view(&self) -> ActionView {
        match self {
            Action::Fetch { url, wait_millis } => ActionView::Fetch {
                url: url@,
                wait_millis: *wait_millis as nat,
            },
            Action::Extract { bytes } => ActionView::Extract { bytes: bytes@ },
            Action::Finish(Ok(_)) => ActionView::Finish(Ok(())),
            Action::Finish(Err(e)) => ActionView::Finish(Err(e@)),
            Action::Ignore => ActionView::Ignore,
        }
    }
}

/// What an installer answers to an event: the states to pass on, in order,
/// and then the action to take.
#[derive(Debug, PartialEq, Eq)]
pub struct Step {
    pub emit: Vec<InstallState>,
    pub action: Action,
}

/// The state of an installer.
pub struct InstallerView {
    pub phase: Phase,
    pub name: Seq<char>,
    pub url: Seq<char>,
    pub fetcher: FetcherView,
    pub backoff_millis: nat,
}

/// What an event leads to: the state after it, the statuses to show, and the
/// action to take.
pub struct Outcome {
    pub next: InstallerView,
    pub statuses: Seq<Status>,
    pub action: ActionView,
}

/// The installation fails with `error`, after `shown` has been shown.
pub open spec fn fail(state: InstallerView, shown: Seq<Status>, error: InstallErrorView) -> Outcome {
    Outcome {
        next: InstallerView { phase: Phase::Failed, ..state },
        statuses: shown + seq![Status::Error(error.message())],
        action: ActionView::Finish(Err(error)),
    }
}

/// The event is not one for the phase.
pub open spec fn ignore(state: InstallerView) -> Outcome {
    Outcome { next: state, statuses: seq![], action: ActionView::Ignore }
}

/// What `event` leads to in `state`.
///
/// `Ready`, on the URL: `Downloading` is shown and the first request asked
/// for, without a wait; with no URL, or with no attempt to make, the
/// installation fails at once. `Downloading`, on a response: the fetcher
/// decides; a retry is shown and the request asked for again after the
/// backoff interval, an archive leads to `Extracting`, a failed fetch fails
/// the installation. `Extracting`, on the unpacker's report: `Installed`, or
/// failure. Any other event is ignored.
pub open spec fn apply(state: InstallerView, event: EventView) -> Outcome {
    match (state.phase, event) {
        (Phase::Ready, EventView::Resolved(Ok(url))) => if state.fetcher.failures
            < state.fetcher.max_attempts {
            Outcome {
                next: InstallerView { phase: Phase::Downloading, url, ..state },
                statuses: seq![Status::Downloading],
                action: ActionView::Fetch { url, wait_millis: 0 },
            }
        } else {
            fail(
                state,
                seq![Status::Downloading],
                InstallErrorView::Fetch(FetchErrorView::Exhausted(seq![])),
            )
        },
        (Phase::Ready, EventView::Resolved(Err(cause))) => fail(
            state,
            seq![Status::Downloading],
            InstallErrorView::Resolve(cause),
        ),
        (Phase::Downloading, EventView::Fetched(response)) => {
            let (fetcher, step) = respond(state.fetcher, response);
            match step {
                FetchStepView::Retry(attempt) => Outcome {
                    next: InstallerView { fetcher, ..state },
                    statuses: seq![Status::Retry(attempt)],
                    action: ActionView::Fetch {
                        url: state.url,
                        wait_millis: state.backoff_millis,
                    },
                },
                FetchStepView::Fetched(bytes) => Outcome {
                    next: InstallerView { phase: Phase::Extracting, fetcher, ..state },
                    statuses: seq![Status::Extracting],
                    action: ActionView::Extract { bytes },
                },
                FetchStepView::Failed(e) => fail(
                    InstallerView { fetcher, ..state },
                    seq![],
                    InstallErrorView::Fetch(e),
                ),
            }
        },
        (Phase::Extracting, EventView::Extracted(Ok(_))) => Outcome {
            next: InstallerView { phase: Phase::Installed, ..state },
            statuses: seq![Status::Installed],
            action: ActionView::Finish(Ok(())),
        },
        (Phase::Extracting, EventView::Extracted(Err(cause))) => fail(
            state,
            seq![],
            InstallErrorView::Extract(cause),
        ),
        _ => ignore(state),
    }
}

/// The first event of the installation of `plugin`: its URL, or, where it
/// has none, the failure to resolve it, for `cause`.
pub open spec fn resolution(plugin: PluginView, cause: Seq<char>) -> EventView {
    EventView::Resolved(
        match resolved(plugin) {
            Some(url) => Ok(url),
            None => Err(cause),
        },
    )
}

/// An installer that has seen no event yet.
pub open spec fn fresh(name: Seq<char>, policy: RetryPolicy) -> InstallerView {
    InstallerView {
        phase: Phase::Ready,
        name,
        url: seq![],
        fetcher: crate::fetch::fresh(policy.max_attempts as nat),
        backoff_millis: policy.backoff_millis as nat,
    }
}

/// The installer that starts in `state` and is told `events`, one after the
/// other: its state in the end, and all the statuses it has shown.
pub open spec fn run(state: InstallerView, events: Seq<EventView>) -> (InstallerView, Seq<Status>)
    decreases events.len(),
{
    if events.len() == 0 {
        (state, seq![])
    } else {
        let (before, shown) = run(state, events.drop_last());
        let outcome = apply(before, events.last());
        (outcome.next, shown + outcome.statuses)
    }
}

/// `Downloading`, followed by the retries 1, 2, ... up to `retries`.
pub open spec fn download_trace(retries: nat) -> Seq<Status> {
    seq![Status::Downloading] + Seq::new(retries, |i: int| Status::Retry((i + 1) as nat))
}

/// What a failed installation has shown: the download with its retries,
/// `Extracting` where the archive had arrived, and the error.
pub open spec fn failed_trace(retries: nat, extracting: bool, cause: Seq<char>) -> Seq<Status> {
    download_trace(retries) + (if extracting {
        seq![Status::Extracting]
    } else {
        seq![]
    }) + seq![Status::Error(cause)]
}

/// `shown` is what an installer in `state` must have shown to get there, and
/// the retries among it are fewer than the attempts that the policy gives.
pub open spec fn orderly(state: InstallerView, shown: Seq<Status>) -> bool {
    let failures = state.fetcher.failures;
    let attempts = state.fetcher.max_attempts;
    match state.phase {
        Phase::Ready => shown == Seq::<Status>::empty() && failures == 0,
        Phase::Downloading => shown == download_trace(failures) && failures < attempts,
        Phase::Extracting => shown == download_trace(failures) + seq![Status::Extracting]
            && failures < attempts,
        Phase::Installed => shown == download_trace(failures) + seq![
            Status::Extracting,
            Status::Installed,
        ] && failures < attempts,
        Phase::Failed => exists|retries: nat, extracting: bool, cause: Seq<char>|
            shown == #[trigger] failed_trace(retries, extracting, cause) && (retries == 0
                || retries < attempts),
    }
}

proof fn lemma_apply_keeps_order(state: InstallerView, shown: Seq<Status>, event: EventView)
    requires
        orderly(state, shown),
    ensures
        orderly(apply(state, event).next, shown + apply(state, event).statuses),
{
    let outcome = apply(state, event);
    let after = shown + outcome.statuses;
    let failures = state.fetcher.failures;
    assert(download_trace(0) =~= seq![Status::Downloading]);
    match (state.phase, event) {
        (Phase::Ready, EventView::Resolved(Ok(url))) => {
            if state.fetcher.failures < state.fetcher.max_attempts {
                assert(after =~= seq![Status::Downloading]);
            } else {
                assert(after =~= failed_trace(0, false, outcome.statuses.last()->Error_0));
            }
        },
        (Phase::Ready, EventView::Resolved(Err(cause))) => {
            assert(after =~= failed_trace(0, false, cause));
        },
        (Phase::Downloading, EventView::Fetched(response)) => {
            let (fetcher, step) = respond(state.fetcher, response);
            match step {
                FetchStepView::Retry(attempt) => {
                    assert(after =~= download_trace(failures + 1));
                },
                FetchStepView::Fetched(_) => {},
                FetchStepView::Failed(e) => {
                    assert(after =~= failed_trace(
                        failures,
                        false,
                        InstallErrorView::Fetch(e).message(),
                    ));
                },
            }
        },
        (Phase::Extracting, EventView::Extracted(Ok(_))) => {
            assert(after =~= download_trace(failures) + seq![
                Status::Extracting,
                Status::Installed,
            ]);
        },
        (Phase::Extracting, EventView::Extracted(Err(cause))) => {
            assert(after =~= failed_trace(
                failures,
                true,
                InstallErrorView::Extract(cause).message(),
            ));
        },
        _ => {
            assert(after =~= shown);
        },
    }
}

/// Whatever an installer is told, it stays the installer of the same
/// plugin under the same policy.
pub proof fn lemma_run_keeps_the_policy(
    name: Seq<char>,
    policy: RetryPolicy,
    events: Seq<EventView>,
)
    ensures
        run(fresh(name, policy), events).0.name == name,
        run(fresh(name, policy), events).0.fetcher.max_attempts == policy.max_attempts,
        run(fresh(name, policy), events).0.backoff_millis == policy.backoff_millis,
    decreases events.len(),
{
    if events.len() > 0 {
        lemma_run_keeps_the_policy(name, policy, events.drop_last());
    }
}

/// Whatever an installer is told, what it has shown is in order for the
/// phase it is in.
pub proof fn lemma_run_is_orderly(name: Seq<char>, policy: RetryPolicy, events: Seq<EventView>)
    ensures
        orderly(run(fresh(name, policy), events).0, run(fresh(name, policy), events).1),
    decreases events.len(),
{
    if events.len() > 0 {
        lemma_run_is_orderly(name, policy, events.drop_last());
        let (before, shown) = run(fresh(name, policy), events.drop_last());
        lemma_apply_keeps_order(before, shown, events.last());
    }
}

/// An installation that succeeds has shown `Downloading`, then its retries,
/// numbered from 1 and fewer than the attempts of the policy, then
/// `Extracting`, then `Installed`, and nothing else.
pub proof fn lemma_success_shows_the_phases_in_order(
    name: Seq<char>,
    policy: RetryPolicy,
    events: Seq<EventView>,
)
    requires
        run(fresh(name, policy), events).0.phase == Phase::Installed,
    ensures
        exists|retries: nat|
            retries < policy.max_attempts && run(fresh(name, policy), events).1
                == #[trigger] download_trace(retries) + seq![
                Status::Extracting,
                Status::Installed,
            ],
{
    lemma_run_is_orderly(name, policy, events);
    lemma_run_keeps_the_policy(name, policy, events);
}

/// An installation that fails has shown `Downloading` first and an error
/// last, and before that error neither another error nor `Installed`.
pub proof fn lemma_failure_ends_in_one_error(
    name: Seq<char>,
    policy: RetryPolicy,
    events: Seq<EventView>,
)
    requires
        run(fresh(name, policy), events).0.phase == Phase::Failed,
    ensures
        ({
            let shown = run(fresh(name, policy), events).1;
            &&& shown.len() >= 2
            &&& shown[0] == Status::Downloading
            &&& shown.last() is Error
            &&& forall|i: int| 0 <= i < shown.len() - 1 ==> !(#[trigger] shown[i]).is_terminal()
        }),
{
    lemma_run_is_orderly(name, policy, events);
    let shown = run(fresh(name, policy), events).1;
    let (retries, extracting, cause) = choose|retries: nat, extracting: bool, cause: Seq<char>|
        shown == #[trigger] failed_trace(retries, extracting, cause);
    assert(shown == failed_trace(retries, extracting, cause));
}

/// While an installation is under way it has shown neither `Installed` nor
/// an error.
pub proof fn lemma_nothing_final_is_shown_early(
    name: Seq<char>,
    policy: RetryPolicy,
    events: Seq<EventView>,
)
    requires
        !run(fresh(name, policy), events).0.phase.is_terminal(),
    ensures
        forall|i: int|
            0 <= i < run(fresh(name, policy), events).1.len() ==> !(#[trigger] run(
                fresh(name, policy),
                events,
            ).1[i]).is_terminal(),
{
    lemma_run_is_orderly(name, policy, events);
}

/// An installation that is over stays as it is: a further event changes
/// nothing and shows nothing.
pub proof fn lemma_the_end_is_final(state: InstallerView, event: EventView)
    requires
        state.phase.is_terminal(),
    ensures
        apply(state, event) == ignore(state),
{
}

/// `emit` shows `statuses`, in order, under `name`.
pub open spec fn shows(emit: Seq<InstallState>, name: Seq<char>, statuses: Seq<Status>) -> bool {
    &&& emit.len() == statuses.len()
    &&& forall|i: int|
        0 <= i < emit.len() ==> (#[trigger] emit[i])@ == (InstallStateView {
            status: statuses[i],
            name,
        })
}

/// The installer of one plugin.
#[derive(Debug, PartialEq, Eq)]
pub struct Installer {
    phase: Phase,
    name: String,
    url: String,
    fetcher: Fetcher,
    backoff_millis: u64,
}

impl View for Installer {
    type V = InstallerView;

    closed spec fn view(&self) -> InstallerView {
        InstallerView {
            phase: self.phase,
            name: self.name@,
            url: self.url@,
            fetcher: self.fetcher@,
            backoff_millis: self.backoff_millis as nat,
        }
    }
}

impl Installer {
    /// An installer for the plugin that is shown as `name`.
    pub fn new(name: &str, policy: RetryPolicy) -> (installer: Installer)
        ensures
            installer@ == fresh(name@, policy),
    {
        Installer {
            phase: Phase::Ready,
            name: String::from_str(name),
            url: String::new(),
            fetcher: Fetcher::new(policy.max_attempts),
            backoff_millis: policy.backoff_millis,
        }
    }

    /// An installer for `plugin`, shown under the plugin's name.
    pub fn for_plugin(plugin: &Plugin, policy: RetryPolicy) -> (installer: Installer)
        ensures
            installer@ == fresh(plugin.name(), policy),
    {
        let name = plugin.to_string();
        Installer::new(name.as_str(), policy)
    }

    /// Where the installation stands.
    pub fn phase(&self) -> (phase: Phase)
        ensures
            phase == self@.phase,
    {
        self.phase
    }

    /// The name under which the plugin is shown.
    pub fn name(&self) -> (name: &str)
        ensures
            name@ == self@.name,
    {
        self.name.as_str()
    }

    fn state(&self, status: InstallStateKind) -> (state: InstallState)
        ensures
            state@ == (InstallStateView { status: status@, name: self@.name }),
    {
        InstallState { status, name: self.name.clone() }
    }

    /// Ends the installation in failure, after `shown`, which shows `before`.
    fn fail(
        &mut self,
        shown: Vec<InstallState>,
        error: InstallError,
        Ghost(before): Ghost<Seq<Status>>,
    ) -> (step: Step)
        requires
            shows(shown@, old(self)@.name, before),
        ensures
            final(self)@ == fail(old(self)@, before, error@).next,
            step.action@ == fail(old(self)@, before, error@).action,
            shows(step.emit@, old(self)@.name, fail(old(self)@, before, error@).statuses),
    {
        let mut emit = shown;
        let cause = error.to_string();
        let state = self.state(InstallStateKind::Error(cause));
        emit.push(state);
        self.phase = Phase::Failed;
        Step { emit, action: Action::Finish(Err(error)) }
    }

    /// Takes an event and says what is to be shown and done next.
    pub fn step(&mut self, event: Event) -> (step: Step)
        ensures
            final(self)@ == apply(old(self)@, event@).next,
            step.action@ == apply(old(self)@, event@).action,
            shows(step.emit@, old(self)@.name, apply(old(self)@, event@).statuses),
    {
        let ghost nothing = Seq::<Status>::empty();
        match event {
            Event::Resolved(resolution) => {
                if self.phase != Phase::Ready {
                    return Step { emit: Vec::new(), action: Action::Ignore };
                }
                let mut emit: Vec<InstallState> = Vec::new();
                let downloading = self.state(InstallStateKind::Downloading);
                emit.push(downloading);
                let ghost shown = seq![Status::Downloading];
                match resolution {
                    Ok(url) => {
                        if self.fetcher.may_attempt() {
                            self.phase = Phase::Downloading;
                            self.url = url.clone();
                            Step { emit, action: Action::Fetch { url, wait_millis: 0 } }
                        } else {
                            let error = InstallError::Fetch(FetchError::Exhausted(String::new()));
                            self.fail(emit, error, Ghost(shown))
                        }
                    },
                    Err(cause) => self.fail(emit, InstallError::Resolve(cause), Ghost(shown)),
                }
            },
            Event::Fetched(response) => {
                if self.phase != Phase::Downloading {
                    return Step { emit: Vec::new(), action: Action::Ignore };
                }
                match self.fetcher.on_response(response) {
                    FetchStep::Retry(attempt) => {
                        let mut emit: Vec<InstallState> = Vec::new();
                        let retry = self.state(InstallStateKind::Retry(attempt));
                        emit.push(retry);
                        Step {
                            emit,
                            action: Action::Fetch {
                                url: self.url.clone(),
                                wait_millis: self.backoff_millis,
                            },
                        }
                    },
                    FetchStep::Fetched(bytes) => {
                        let mut emit: Vec<InstallState> = Vec::new();
                        let extracting = self.state(InstallStateKind::Extracting);
                        emit.push(extracting);
                        self.phase = Phase::Extracting;
                        Step { emit, action: Action::Extract { bytes } }
                    },
                    FetchStep::Failed(e) => self.fail(
                        Vec::new(),
                        InstallError::Fetch(e),
                        Ghost(nothing),
                    ),
                }
            },
            Event::Extracted(report) => {
                if self.phase != Phase::Extracting {
                    return Step { emit: Vec::new(), action: Action::Ignore };
                }
                match report {
                    Ok(_) => {
                        let mut emit: Vec<InstallState> = Vec::new();
                        let installed = self.state(InstallStateKind::Installed);
                        emit.push(installed);
                        self.phase = Phase::Installed;
                        Step { emit, action: Action::Finish(Ok(())) }
                    },
                    Err(cause) => self.fail(
                        Vec::new(),
                        InstallError::Extract(cause),
                        Ghost(nothing),
                    ),
                }
            },
        }
    }

    /// Starts the installation of `plugin`: resolves its URL and takes the
    /// outcome as the first event.
    ///
    /// Where the plugin has a URL, the step is the one for that URL. Where
    /// it has none, the step is the one for a failed resolution, under the
    /// cause that the URL parser gives.
    pub fn start(&mut self, plugin: &Plugin) -> (step: Step)
        ensures
            exists|cause: Seq<char>|
                {
                    &&& final(self)@ == apply(
                        old(self)@,
                        #[trigger] resolution(plugin@, cause),
                    ).next
                    &&& step.action@ == apply(old(self)@, resolution(plugin@, cause)).action
                    &&& shows(
                        step.emit@,
                        old(self)@.name,
                        apply(old(self)@, resolution(plugin@, cause)).statuses,
                    )
                },
    {
        let event = Event::Resolved(
            match plugin.resolve() {
                Ok(url) => Ok(url),
                Err(e) => Err(parse_error_text(&e)),
            },
        );
        let ghost seen = event@;
        let step = self.step(event);
        proof {
            let cause = match seen {
                EventView::Resolved(Err(text)) => text,
                _ => Seq::<char>::empty(),
            };
            assert(seen == resolution(plugin@, cause));
        }
        step
    }
}

} // verus!
