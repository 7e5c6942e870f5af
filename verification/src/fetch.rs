//! The decisions of a fetch that is tried again after a transport failure.
//!
//! The caller issues the requests and waits between them; after each request
//! it hands the response to a `Fetcher`, which says what comes next.

use vstd::prelude::*;
use vstd::slice::*;
use vstd::string::*;
use vstd::utf8::*;

verus! {

/// How often a fetch is attempted, and how long to wait between attempts.
#[derive(Clone, Copy, Debug, PartialEq, Eq, Structural)]
pub struct RetryPolicy {
    /// Requests made before the fetch is given up.
    pub max_attempts: u32,
    /// The wait before each new attempt, in milliseconds; the same every time.
    pub backoff_millis: u64,
}

impl Default for RetryPolicy {
    /// Five attempts, two seconds apart.
    fn default() -> (policy: RetryPolicy)
        ensures
            policy == (RetryPolicy { max_attempts: 5, backoff_millis: 2000 }),
    {
        RetryPolicy { max_attempts: 5, backoff_millis: 2000 }
    }
}

/// Why a fetch was given up.
#[derive(Clone, Debug, PartialEq, Eq)]
pub enum FetchError {
    /// Every attempt failed in transport; the cause is that of the last one.
    Exhausted(String),
    /// The server answered that there is no such archive.
    NotFound,
}

/// What a `FetchError` holds, as plain values.
pub enum FetchErrorView {
    Exhausted(Seq<char>),
    NotFound,
}

impl View for FetchError {
    type V = FetchErrorView;

    open spec fn view(&self) -> FetchErrorView {
        match self {
            FetchError::Exhausted(cause) => FetchErrorView::Exhausted(cause@),
            FetchError::NotFound => FetchErrorView::NotFound,
        }
    }
}

/// What came of one request: the body of the response, or the cause of a
/// transport failure.
pub type Response = Result<Vec<u8>, String>;

/// A `Response`, as plain values.
pub type ResponseView = Result<Seq<u8>, Seq<char>>;

/// The plain values of a response.
pub open spec fn response_view(response: Response) -> ResponseView {
    match response {
        Ok(body) => Ok(body@),
        Err(cause) => Err(cause@),
    }
}

/// What to do after a response.
#[derive(Debug, PartialEq, Eq)]
pub enum FetchStep {
    /// Report the retry with this number, wait for the backoff interval and
    /// make the request again.
    Retry(u32),
    /// The fetch is over and this is the archive.
    Fetched(Vec<u8>),
    /// The fetch is over and has failed.
    Failed(FetchError),
}

/// A `FetchStep`, as plain values.
pub enum FetchStepView {
    Retry(nat),
    Fetched(Seq<u8>),
    Failed(FetchErrorView),
}

impl View for FetchStep {
    type V = FetchStepView;

    open spec fn view(&self) -> FetchStepView {
        match self {
            FetchStep::Retry(attempt) => FetchStepView::Retry(*attempt as nat),
            FetchStep::Fetched(body) => FetchStepView::Fetched(body@),
            FetchStep::Failed(e) => FetchStepView::Failed(e@),
        }
    }
}

/// The text with which a provider answers for an archive that it does not
/// have.
pub open spec fn not_found_text() -> Seq<char> {
    "404: Not Found\n"@
}

/// `body` is, byte for byte, the answer for an archive that does not exist.
pub open spec fn is_not_found(body: Seq<u8>) -> bool {
    body == encode_utf8(not_found_text())
}

/// The state of a fetch: how many attempts it has, and how many have failed.
pub struct FetcherView {
    pub max_attempts: nat,
    pub failures: nat,
}

/// The state after a response, and what to do then.
///
/// A body ends the fetch: as a failure where it is the not-found answer,
/// which no new attempt could mend, and with the archive otherwise. A
/// transport failure is counted. Where attempts are left after it, the next
/// one is announced under the number of failures so far; where none is left,
/// the fetch is given up with the cause of this last failure. The count never
/// passes the number of attempts.
pub open spec fn respond(state: FetcherView, response: ResponseView) -> (FetcherView, FetchStepView) {
    match response {
        Ok(body) => if is_not_found(body) {
            (state, FetchStepView::Failed(FetchErrorView::NotFound))
        } else {
            (state, FetchStepView::Fetched(body))
        },
        Err(cause) => if state.failures + 1 < state.max_attempts {
            (
                FetcherView { failures: state.failures + 1, ..state },
                FetchStepView::Retry(state.failures + 1),
            )
        } else {
            (
                FetcherView { failures: state.max_attempts, ..state },
                FetchStepView::Failed(FetchErrorView::Exhausted(cause)),
            )
        },
    }
}

/// A fetch from its first request to its end.
pub struct FetchRun {
    /// Requests that were made.
    pub attempts: nat,
    /// The retries that were announced, in order.
    pub retries: Seq<nat>,
    /// How the fetch ended; `None` while it has not.
    pub result: Option<Result<Seq<u8>, FetchErrorView>>,
}

/// The fetch that starts in `state` and gets `responses` to its requests, one
/// after the other, for as long as it makes requests.
pub open spec fn run(state: FetcherView, responses: Seq<ResponseView>) -> FetchRun
    decreases responses.len(),
{
    if state.failures >= state.max_attempts {
        FetchRun {
            attempts: 0,
            retries: seq![],
            result: Some(Err(FetchErrorView::Exhausted(seq![]))),
        }
    } else if responses.len() == 0 {
        FetchRun { attempts: 0, retries: seq![], result: None }
    } else {
        let (next, step) = respond(state, responses[0]);
        match step {
            FetchStepView::Retry(attempt) => {
                let rest = run(next, responses.drop_first());
                FetchRun {
                    attempts: 1 + rest.attempts,
                    retries: seq![attempt] + rest.retries,
                    result: rest.result,
                }
            },
            FetchStepView::Fetched(body) => FetchRun {
                attempts: 1,
                retries: seq![],
                result: Some(Ok(body)),
            },
            FetchStepView::Failed(e) => FetchRun {
                attempts: 1,
                retries: seq![],
                result: Some(Err(e)),
            },
        }
    }
}

/// A fresh fetch with `max_attempts` attempts.
pub open spec fn fresh(max_attempts: nat) -> FetcherView {
    FetcherView { max_attempts, failures: 0 }
}

/// The retries `from`, `from + 1`, ... up to but without `until`.
pub open spec fn retries_between(from: nat, until: nat) -> Seq<nat> {
    Seq::new(
        if until >= from {
            (until - from) as nat
        } else {
            0
        },
        |i: int| (from + i) as nat,
    )
}

proof fn lemma_run_of_failures(state: FetcherView, responses: Seq<ResponseView>)
    requires
        state.failures < state.max_attempts,
        responses.len() >= state.max_attempts - state.failures,
        forall|i: int| 0 <= i < state.max_attempts - state.failures ==> responses[i] is Err,
    ensures
        run(state, responses).attempts == state.max_attempts - state.failures,
        run(state, responses).retries == retries_between(state.failures + 1, state.max_attempts),
        run(state, responses).result == Some(
            Err::<Seq<u8>, FetchErrorView>(
                FetchErrorView::Exhausted(
                    responses[state.max_attempts - state.failures - 1]->Err_0,
                ),
            ),
        ),
    decreases state.max_attempts - state.failures,
{
    let (next, step) = respond(state, responses[0]);
    if state.failures + 1 < state.max_attempts {
        let rest = responses.drop_first();
        assert forall|i: int| 0 <= i < next.max_attempts - next.failures implies rest[i] is Err by {
            assert(rest[i] == responses[i + 1]);
        }
        lemma_run_of_failures(next, rest);
        assert(rest[next.max_attempts - next.failures - 1] == responses[state.max_attempts
            - state.failures - 1]);
    }
    assert(run(state, responses).retries =~= retries_between(
        state.failures + 1,
        state.max_attempts,
    ));
}

/// A fetch whose requests all fail in transport makes exactly as many
/// requests as it has attempts, announces the retries 1, 2, ... before all
/// but the first of them, and is then given up, with the cause of the last
/// failure where there was one.
pub proof fn lemma_failing_fetch_is_exhausted(max_attempts: nat, responses: Seq<ResponseView>)
    requires
        responses.len() >= max_attempts,
        forall|i: int| 0 <= i < max_attempts ==> responses[i] is Err,
    ensures
        run(fresh(max_attempts), responses).attempts == max_attempts,
        run(fresh(max_attempts), responses).retries == retries_between(1, max_attempts),
        run(fresh(max_attempts), responses).result == Some(
            Err::<Seq<u8>, FetchErrorView>(
                FetchErrorView::Exhausted(
                    if max_attempts == 0 {
                        seq![]
                    } else {
                        responses[max_attempts - 1]->Err_0
                    },
                ),
            ),
        ),
{
    if max_attempts > 0 {
        lemma_run_of_failures(fresh(max_attempts), responses);
    } else {
        assert(run(fresh(max_attempts), responses).retries =~= retries_between(1, max_attempts));
    }
}

/// The retries up to `until` are one fewer than `until`, and the retry at
/// position `i` has the number `i + 1`.
pub proof fn lemma_retries_count_from_one(until: nat)
    ensures
        retries_between(1, until).len() == if until == 0 {
            0
        } else {
            until - 1
        },
        forall|i: int|
            0 <= i < retries_between(1, until).len() ==> #[trigger] retries_between(1, until)[i]
                == i + 1,
{
}

/// The count of failures never passes the number of attempts, and a retry
/// is announced only under a number below it.
pub proof fn lemma_failures_are_capped(state: FetcherView, response: ResponseView)
    requires
        state.failures <= state.max_attempts,
    ensures
        respond(state, response).0.failures <= state.max_attempts,
        respond(state, response).0.max_attempts == state.max_attempts,
        respond(state, response).1 matches FetchStepView::Retry(attempt) ==> 1 <= attempt
            < state.max_attempts && attempt == state.failures + 1,
{
}

/// In any fetch the retries are numbered one after the other, from the
/// number of failures before it plus one.
pub proof fn lemma_retries_are_numbered(state: FetcherView, responses: Seq<ResponseView>)
    ensures
        run(state, responses).retries == retries_between(
            state.failures + 1,
            state.failures + 1 + run(state, responses).retries.len(),
        ),
    decreases responses.len(),
{
    let shown = run(state, responses).retries;
    if state.failures < state.max_attempts && responses.len() > 0 {
        let (next, step) = respond(state, responses[0]);
        if step is Retry {
            lemma_retries_are_numbered(next, responses.drop_first());
        }
    }
    assert(shown =~= retries_between(state.failures + 1, state.failures + 1 + shown.len()));
}

/// A fetch whose first `failures` requests fail in transport, fewer than it
/// has attempts, and whose next request is answered with an archive, makes
/// one request more than it saw failures, announces the retries 1, 2, ...
/// up to their number, and ends with that archive.
pub proof fn lemma_fetch_succeeds_after_failures(
    max_attempts: nat,
    responses: Seq<ResponseView>,
    failures: nat,
)
    requires
        failures < max_attempts,
        responses.len() > failures,
        forall|i: int| 0 <= i < failures ==> responses[i] is Err,
        responses[failures as int] matches Ok(body) && !is_not_found(body),
    ensures
        run(fresh(max_attempts), responses) == (FetchRun {
            attempts: failures + 1,
            retries: retries_between(1, failures + 1),
            result: Some(Ok(responses[failures as int]->Ok_0)),
        }),
{
    lemma_run_to_success(fresh(max_attempts), responses, failures);
}

proof fn lemma_run_to_success(state: FetcherView, responses: Seq<ResponseView>, more: nat)
    requires
        state.failures + more < state.max_attempts,
        responses.len() > more,
        forall|i: int| 0 <= i < more ==> responses[i] is Err,
        responses[more as int] matches Ok(body) && !is_not_found(body),
    ensures
        run(state, responses).attempts == more + 1,
        run(state, responses).retries == retries_between(
            state.failures + 1,
            state.failures + more + 1,
        ),
        run(state, responses).result == Some(
            Ok::<Seq<u8>, FetchErrorView>(responses[more as int]->Ok_0),
        ),
    decreases more,
{
    if more > 0 {
        let (next, step) = respond(state, responses[0]);
        let rest = responses.drop_first();
        assert forall|i: int| 0 <= i < more - 1 implies rest[i] is Err by {
            assert(rest[i] == responses[i + 1]);
        }
        assert(rest[more - 1] == responses[more as int]);
        lemma_run_to_success(next, rest, (more - 1) as nat);
    }
    assert(run(state, responses).retries =~= retries_between(
        state.failures + 1,
        state.failures + more + 1,
    ));
}

/// A fetch whose first request is answered with the not-found body makes
/// that one request, announces no retry and fails as not found.
pub proof fn lemma_not_found_is_final(max_attempts: nat, responses: Seq<ResponseView>)
    requires
        max_attempts >= 1,
        responses.len() >= 1,
        responses[0] matches Ok(body) && is_not_found(body),
    ensures
        run(fresh(max_attempts), responses) == (FetchRun {
            attempts: 1,
            retries: seq![],
            result: Some(Err(FetchErrorView::NotFound)),
        }),
{
}

/// A fetch never makes more requests than it has attempts, and it announces
/// one retry fewer than it makes requests.
pub proof fn lemma_attempts_are_bounded(state: FetcherView, responses: Seq<ResponseView>)
    requires
        state.failures <= state.max_attempts,
    ensures
        run(state, responses).attempts <= state.max_attempts - state.failures,
        run(state, responses).attempts <= responses.len(),
        run(state, responses).result is Some && run(state, responses).attempts > 0 ==> run(
            state,
            responses,
        ).retries.len() + 1 == run(state, responses).attempts,
    decreases responses.len(),
{
    if state.failures < state.max_attempts && responses.len() > 0 {
        let (next, step) = respond(state, responses[0]);
        if step is Retry {
            lemma_attempts_are_bounded(next, responses.drop_first());
        }
    }
}

/// Whether `body` is the answer for an archive that does not exist.
pub fn body_is_not_found(body: &Vec<u8>) -> (hit: bool)
    ensures
        hit == is_not_found(body@),
{
    let marker = "404: Not Found\n".as_bytes();
    if body.len() != marker.len() {
        return false;
    }
    let mut i: usize = 0;
    while i < body.len()
        invariant
            marker@ == encode_utf8(not_found_text()),
            body@.len() == marker@.len(),
            i <= body@.len(),
            forall|j: int| 0 <= j < i ==> body@[j] == marker@[j],
        decreases body@.len() - i,
    {
        if body[i] != marker[i] {
            return false;
        }
        i += 1;
    }
    assert(body@ =~= marker@);
    true
}

/// The bookkeeping of one fetch.
#[derive(Debug, PartialEq, Eq)]
pub struct Fetcher {
    max_attempts: u32,
    failures: u32,
}

impl View for Fetcher {
    type V = FetcherView;

    closed spec fn view(&self) -> FetcherView {
        FetcherView { max_attempts: self.max_attempts as nat, failures: self.failures as nat }
    }
}

impl Fetcher {
    /// A fetch that has made no request yet.
    pub fn new(max_attempts: u32) -> (fetcher: Fetcher)
        ensures
            fetcher@ == fresh(max_attempts as nat),
    {
        Fetcher { max_attempts, failures: 0 }
    }

    /// Whether a request may still be made.
    pub fn may_attempt(&self) -> (yes: bool)
        ensures
            yes == (self@.failures < self@.max_attempts),
    {
        self.failures < self.max_attempts
    }

    /// Transport failures so far.
    pub fn failures(&self) -> (n: u32)
        ensures
            n == self@.failures,
    {
        self.failures
    }

    /// Takes the response to the last request and says what comes next.
    pub fn on_response(&mut self, response: Response) -> (step: FetchStep)
        ensures
            (final(self)@, step@) == respond(old(self)@, response_view(response)),
    {
        match response {
            Ok(body) => {
                if body_is_not_found(&body) {
                    FetchStep::Failed(FetchError::NotFound)
                } else {
                    FetchStep::Fetched(body)
                }
            },
            Err(cause) => {
                if self.failures < self.max_attempts && self.failures + 1 < self.max_attempts {
                    self.failures = self.failures + 1;
                    FetchStep::Retry(self.failures)
                } else {
                    self.failures = self.max_attempts;
                    FetchStep::Failed(FetchError::Exhausted(cause))
                }
            },
        }
    }
}

impl FetchError {
    /// The message shown for this error.
    pub open spec fn message(self) -> Seq<char> {
        match self {
            FetchError::Exhausted(_) => "failed downloading plugin"@,
            FetchError::NotFound => "plugin does not exist (404)"@,
        }
    }

    /// The message shown for this error.
    pub fn to_string(&self) -> (text: String)
        ensures
            text@ == self.message(),
    {
        match self {
            FetchError::Exhausted(_) => String::from_str("failed downloading plugin"),
            FetchError::NotFound => String::from_str("plugin does not exist (404)"),
        }
    }
}

} // verus!
