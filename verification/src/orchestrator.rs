//! One request from query to answer, as a machine that is told what happened
//! outside and says what to do next.
//!
//! The machine itself reads no cache, asks no token, calls no solver and
//! renders nothing. Whoever drives it does what each action names and hands
//! back the event that came of it.

use crate::cache::{CacheKey, CacheKeyView};
use crate::entry::{Data, DataView};
use crate::error::{Error, ErrorView, Failure};
use crate::plan::{assemble, assemble_spec, job_views, jobs, out_of_turn, plan, Outcome, RenderJob, RenderJobView};
use crate::symbolab::{SymbolabResponse, SymbolabResponseView};
use vstd::prelude::*;

verus! {

/// What a request is waiting for.
pub enum Stage {
    /// The answer of the cache.
    Lookup,
    /// A token from the pool.
    AwaitingToken,
    /// The document of the upstream solver.
    AwaitingDocument,
    /// The images of the expressions of this document.
    Rendering(SymbolabResponse),
    /// Nothing: the request was answered or has failed.
    Finished,
}

pub ghost enum StageView {
    Lookup,
    AwaitingToken,
    AwaitingDocument,
    Rendering(SymbolabResponseView),
    Finished,
}

impl View for Stage {
    type V = StageView;

    open spec fn view(&self) -> StageView {
        match *self {
            Stage::Lookup => StageView::Lookup,
            Stage::AwaitingToken => StageView::AwaitingToken,
            Stage::AwaitingDocument => StageView::AwaitingDocument,
            Stage::Rendering(doc) => StageView::Rendering(doc@),
            Stage::Finished => StageView::Finished,
        }
    }
}

/// One request under way.
pub struct Request {
    key: CacheKey,
    stage: Stage,
}

pub ghost struct RequestView {
    pub key: CacheKeyView,
    pub stage: StageView,
}

impl View for Request {
    type V = RequestView;

    closed spec fn view(&self) -> RequestView {
        RequestView { key: self.key@, stage: self.stage@ }
    }
}

/// What happened outside.
#[derive(Debug)]
pub enum Event {
    /// The cache was asked for the request's key.
    CacheAnswer(Option<Data>),
    /// The pool was asked for a token.
    Token(Result<String, Error>),
    /// The upstream solver was called.
    Document(Result<SymbolabResponse, Error>),
    /// Every job was rendered; the outcomes stand in the order of the jobs.
    Rendered(Vec<Outcome>),
}

pub ghost enum EventView {
    CacheAnswer(Option<DataView>),
    Token(Result<Seq<char>, ErrorView>),
    Document(Result<SymbolabResponseView, ErrorView>),
    Rendered(Seq<Outcome>),
}

impl View for Event {
    type V = EventView;

    open spec fn view(&self) -> EventView {
        match *self {
            Event::CacheAnswer(found) => EventView::CacheAnswer(
                match found {
                    Some(data) => Some(data@),
                    None => None,
                },
            ),
            Event::Token(token) => EventView::Token(
                match token {
                    Ok(t) => Ok(t@),
                    Err(e) => Err(e@),
                },
            ),
            Event::Document(document) => EventView::Document(
                match document {
                    Ok(doc) => Ok(doc@),
                    Err(e) => Err(e@),
                },
            ),
            Event::Rendered(outcomes) => EventView::Rendered(outcomes@),
        }
    }
}

/// An answer to be written to the cache, with its key.
#[derive(Clone, Debug, PartialEq)]
pub struct Stored {
    pub key: CacheKey,
    pub data: Data,
}

/// What to do next.
#[derive(Debug, PartialEq)]
pub enum Action {
    /// Ask the pool for a token.
    AcquireToken,
    /// Call the upstream solver with this token and query.
    Solve { token: String, query: String },
    /// Render each job with these colours. Nothing is rendered for an
    /// expression that is absent: it has no job.
    Render { jobs: Vec<RenderJob>, foreground: String, background: String },
    /// Send `data` to the caller; then, without keeping the caller waiting,
    /// write `store` to the cache if there is one.
    Reply { data: Data, store: Option<Stored> },
    /// Tell the caller that the request failed. Nothing is written to the
    /// cache.
    Fail(Error),
}

pub ghost enum ActionView {
    AcquireToken,
    Solve { token: Seq<char>, query: Seq<char> },
    Render { jobs: Seq<RenderJobView>, foreground: Seq<char>, background: Seq<char> },
    Reply { data: DataView, store: Option<(CacheKeyView, DataView)> },
    Fail(ErrorView),
}

impl View for Action {
    type V = ActionView;

    open spec fn view(&self) -> ActionView {
        match *self {
            Action::AcquireToken => ActionView::AcquireToken,
            Action::Solve { token, query } => ActionView::Solve { token: token@, query: query@ },
            Action::Render { jobs, foreground, background } => ActionView::Render {
                jobs: job_views(jobs@),
                foreground: foreground@,
                background: background@,
            },
            Action::Reply { data, store } => ActionView::Reply {
                data: data@,
                store: match store {
                    Some(s) => Some((s.key@, s.data@)),
                    None => None,
                },
            },
            Action::Fail(e) => ActionView::Fail(e@),
        }
    }
}

/// A request that has just come in.
pub open spec fn fresh(key: CacheKeyView) -> RequestView {
    RequestView { key, stage: StageView::Lookup }
}

/// A request that is over.
pub open spec fn finished(key: CacheKeyView) -> RequestView {
    RequestView { key, stage: StageView::Finished }
}

/// The next state of a request and the action it asks for, given what
/// happened.
///
/// A hit in the cache is the reply, marked as cached, and nothing is written.
/// A miss asks for a token, the token for the document, the document for its
/// images. The images assembled are the reply, not marked as cached, and a
/// copy marked as cached goes to the cache under the request's key. The first
/// failure ends the request, and so does an event that the request was not
/// waiting for.
pub open spec fn step_spec(request: RequestView, event: EventView) -> (RequestView, ActionView) {
    let key = request.key;
    match (request.stage, event) {
        (StageView::Lookup, EventView::CacheAnswer(Some(data))) => (
            finished(key),
            ActionView::Reply { data: data.marked_cached(), store: None },
        ),
        (StageView::Lookup, EventView::CacheAnswer(None)) => (
            RequestView { key, stage: StageView::AwaitingToken },
            ActionView::AcquireToken,
        ),
        (StageView::AwaitingToken, EventView::Token(Ok(token))) => (
            RequestView { key, stage: StageView::AwaitingDocument },
            ActionView::Solve { token, query: key.query },
        ),
        (StageView::AwaitingToken, EventView::Token(Err(e))) => (
            finished(key),
            ActionView::Fail(e),
        ),
        (StageView::AwaitingDocument, EventView::Document(Ok(doc))) => (
            RequestView { key, stage: StageView::Rendering(doc) },
            ActionView::Render {
                jobs: jobs(doc),
                foreground: key.foreground,
                background: key.background,
            },
        ),
        (StageView::AwaitingDocument, EventView::Document(Err(e))) => (
            finished(key),
            ActionView::Fail(e),
        ),
        (StageView::Rendering(doc), EventView::Rendered(outcomes)) => match assemble_spec(
            doc,
            outcomes,
        ) {
            Ok(data) => (
                finished(key),
                ActionView::Reply { data, store: Some((key, data.marked_cached())) },
            ),
            Err(e) => (finished(key), ActionView::Fail(e)),
        },
        _ => (finished(key), ActionView::Fail(out_of_turn())),
    }
}

impl Request {
    /// A request for `key`, waiting for the answer of the cache.
    pub fn new(key: CacheKey) -> (request: Request)
        ensures
            request@ == fresh(key@),
    {
        Request { key, stage: Stage::Lookup }
    }

    /// The key under which the cache is asked and written.
    pub fn key(&self) -> (key: &CacheKey)
        ensures
            key@ == self@.key,
    {
        &self.key
    }

    /// Whether the request is over.
    pub fn is_finished(&self) -> (over: bool)
        ensures
            over == (self@.stage is Finished),
    {
        match &self.stage {
            Stage::Finished => true,
            _ => false,
        }
    }

    /// Takes what happened and says what to do next.
    pub fn step(self, event: Event) -> (next: (Request, Action))
        ensures
            (next.0@, next.1@) == step_spec(self@, event@),
    {
        let Request { key, stage } = self;
        match (stage, event) {
            (Stage::Lookup, Event::CacheAnswer(Some(data))) => {
                let mut data = data;
                data.cached = true;
                (Request { key, stage: Stage::Finished }, Action::Reply { data, store: None })
            },
            (Stage::Lookup, Event::CacheAnswer(None)) => {
                (Request { key, stage: Stage::AwaitingToken }, Action::AcquireToken)
            },
            (Stage::AwaitingToken, Event::Token(Ok(token))) => {
                let query = String::from_str(key.query());
                (Request { key, stage: Stage::AwaitingDocument }, Action::Solve { token, query })
            },
            (Stage::AwaitingToken, Event::Token(Err(e))) => {
                (Request { key, stage: Stage::Finished }, Action::Fail(e))
            },
            (Stage::AwaitingDocument, Event::Document(Ok(doc))) => {
                let jobs = plan(&doc);
                let foreground = String::from_str(key.foreground());
                let background = String::from_str(key.background());
                (
                    Request { key, stage: Stage::Rendering(doc) },
                    Action::Render { jobs, foreground, background },
                )
            },
            (Stage::AwaitingDocument, Event::Document(Err(e))) => {
                (Request { key, stage: Stage::Finished }, Action::Fail(e))
            },
            (Stage::Rendering(doc), Event::Rendered(outcomes)) => {
                match assemble(doc, &outcomes) {
                    Ok(data) => {
                        let store = Stored { key: key.duplicate(), data: data.cached_copy() };
                        (
                            Request { key, stage: Stage::Finished },
                            Action::Reply { data, store: Some(store) },
                        )
                    },
                    Err(e) => (Request { key, stage: Stage::Finished }, Action::Fail(e)),
                }
            },
            _ => {
                let e = Error::new(Failure::OutOfTurn, String::from_str("event out of turn"));
                (Request { key, stage: Stage::Finished }, Action::Fail(e))
            },
        }
    }
}

/// What the cache answers for a key.
pub open spec fn lookup(cache: Map<CacheKeyView, DataView>, key: CacheKeyView) -> Option<DataView> {
    if cache.contains_key(key) {
        Some(cache[key])
    } else {
        None
    }
}

/// The cache once an action has been carried out: only a reply with
/// something to store changes it.
pub open spec fn cache_after(cache: Map<CacheKeyView, DataView>, action: ActionView) -> Map<
    CacheKeyView,
    DataView,
> {
    match action {
        ActionView::Reply { data, store: Some((key, copy)) } => cache.insert(key, copy),
        _ => cache,
    }
}

/// What the caller receives when an action ends the request.
pub open spec fn reply_of(action: ActionView) -> Result<DataView, ErrorView> {
    match action {
        ActionView::Reply { data, store } => Ok(data),
        ActionView::Fail(e) => Err(e),
        _ => Err(out_of_turn()),
    }
}

/// One request carried through from its arrival to its end: what the caller
/// receives, and the cache afterwards. `token`, `document` and `outcomes` are
/// what the pool, the solver and the renderer would give if they were asked;
/// a request that ends early never asks.
pub open spec fn handle_spec(
    cache: Map<CacheKeyView, DataView>,
    key: CacheKeyView,
    token: Result<Seq<char>, ErrorView>,
    document: Result<SymbolabResponseView, ErrorView>,
    outcomes: Seq<Outcome>,
) -> (Result<DataView, ErrorView>, Map<CacheKeyView, DataView>) {
    let (looked, first) = step_spec(fresh(key), EventView::CacheAnswer(lookup(cache, key)));
    if !(first is AcquireToken) {
        (reply_of(first), cache_after(cache, first))
    } else {
        let (asked, second) = step_spec(looked, EventView::Token(token));
        if !(second is Solve) {
            (reply_of(second), cache_after(cache, second))
        } else {
            let (solved, third) = step_spec(asked, EventView::Document(document));
            if !(third is Render) {
                (reply_of(third), cache_after(cache, third))
            } else {
                let (_, last) = step_spec(solved, EventView::Rendered(outcomes));
                (reply_of(last), cache_after(cache, last))
            }
        }
    }
}

/// A request whose key the cache holds is answered from the cache, marked as
/// cached, whatever the pool, the solver and the renderer would have given,
/// and leaves the cache as it was.
pub proof fn hit_is_served_from_cache(
    cache: Map<CacheKeyView, DataView>,
    key: CacheKeyView,
    token: Result<Seq<char>, ErrorView>,
    document: Result<SymbolabResponseView, ErrorView>,
    outcomes: Seq<Outcome>,
)
    requires
        cache.contains_key(key),
    ensures
        handle_spec(cache, key, token, document, outcomes) == (
            Ok::<DataView, ErrorView>(cache[key].marked_cached()),
            cache,
        ),
{
}

/// A request that misses the cache succeeds exactly when the token, the
/// document and the assembly do. It is then answered with the assembled
/// answer, not marked as cached, and the cache holds the copy marked as
/// cached under the request's key. Otherwise the first failure is the answer
/// and the cache is left as it was.
pub proof fn miss_runs_the_pipeline(
    cache: Map<CacheKeyView, DataView>,
    key: CacheKeyView,
    token: Result<Seq<char>, ErrorView>,
    document: Result<SymbolabResponseView, ErrorView>,
    outcomes: Seq<Outcome>,
)
    requires
        !cache.contains_key(key),
    ensures
        handle_spec(cache, key, token, document, outcomes) == (match (token, document) {
            (Err(e), _) => (Err::<DataView, ErrorView>(e), cache),
            (Ok(_), Err(e)) => (Err::<DataView, ErrorView>(e), cache),
            (Ok(_), Ok(doc)) => match assemble_spec(doc, outcomes) {
                Ok(data) => (
                    Ok::<DataView, ErrorView>(data),
                    cache.insert(key, data.marked_cached()),
                ),
                Err(e) => (Err::<DataView, ErrorView>(e), cache),
            },
        }),
{
}

/// Of two requests for one key, one after the other, the second is answered
/// from the cache: its answer is that of the first, marked as cached, and it
/// leaves the cache as the first left it. This holds whatever the pool, the
/// solver and the renderer would have given the second time.
pub proof fn second_call_is_served_from_cache(
    cache: Map<CacheKeyView, DataView>,
    key: CacheKeyView,
    token: Result<Seq<char>, ErrorView>,
    document: Result<SymbolabResponseView, ErrorView>,
    outcomes: Seq<Outcome>,
    token_again: Result<Seq<char>, ErrorView>,
    document_again: Result<SymbolabResponseView, ErrorView>,
    outcomes_again: Seq<Outcome>,
)
    requires
        handle_spec(cache, key, token, document, outcomes).0 is Ok,
    ensures
        ({
            let (first, between) = handle_spec(cache, key, token, document, outcomes);
            let (second, after) = handle_spec(
                between,
                key,
                token_again,
                document_again,
                outcomes_again,
            );
            &&& second == Ok::<DataView, ErrorView>(first->Ok_0.marked_cached())
            &&& second->Ok_0.cached
            &&& after == between
        }),
{
    let (first, between) = handle_spec(cache, key, token, document, outcomes);
    if cache.contains_key(key) {
        hit_is_served_from_cache(cache, key, token, document, outcomes);
        assert(between == cache);
    } else {
        miss_runs_the_pipeline(cache, key, token, document, outcomes);
        assert(between.contains_key(key));
    }
    hit_is_served_from_cache(between, key, token_again, document_again, outcomes_again);
}

/// Where a request misses the cache and one of its jobs fails, the request
/// fails, whatever became of the other jobs, and nothing is written to the
/// cache: the key is still not in it.
pub proof fn one_failed_job_fails_the_request(
    cache: Map<CacheKeyView, DataView>,
    key: CacheKeyView,
    token: Seq<char>,
    doc: SymbolabResponseView,
    outcomes: Seq<Outcome>,
    failed: int,
)
    requires
        !cache.contains_key(key),
        0 <= failed < outcomes.len(),
        outcomes[failed] is Err,
    ensures
        handle_spec(cache, key, Ok(token), Ok(doc), outcomes).0 is Err,
        handle_spec(cache, key, Ok(token), Ok(doc), outcomes).1 == cache,
        !handle_spec(cache, key, Ok(token), Ok(doc), outcomes).1.contains_key(key),
{
    miss_runs_the_pipeline(cache, key, Ok(token), Ok(doc), outcomes);
    if outcomes.len() == jobs(doc).len() {
        crate::plan::lemma_some_error(outcomes, failed);
    }
}

/// Two requests for one key that both miss the cache, as they do when they
/// run side by side, both succeed where their pipelines do. Once both have
/// written, in whichever order, the cache holds one answer for the key: that
/// of the request that wrote last, marked as cached. Every other key is as it
/// was.
pub proof fn concurrent_misses_leave_one_answer(
    cache: Map<CacheKeyView, DataView>,
    key: CacheKeyView,
    token_a: Seq<char>,
    doc_a: SymbolabResponseView,
    outcomes_a: Seq<Outcome>,
    token_b: Seq<char>,
    doc_b: SymbolabResponseView,
    outcomes_b: Seq<Outcome>,
)
    requires
        !cache.contains_key(key),
        assemble_spec(doc_a, outcomes_a) is Ok,
        assemble_spec(doc_b, outcomes_b) is Ok,
    ensures
        ({
            let (reply_a, action_a) = (
                handle_spec(cache, key, Ok(token_a), Ok(doc_a), outcomes_a).0,
                last_action(key, doc_a, outcomes_a),
            );
            let (reply_b, action_b) = (
                handle_spec(cache, key, Ok(token_b), Ok(doc_b), outcomes_b).0,
                last_action(key, doc_b, outcomes_b),
            );
            let a_then_b = cache_after(cache_after(cache, action_a), action_b);
            let b_then_a = cache_after(cache_after(cache, action_b), action_a);
            &&& reply_a == Ok::<DataView, ErrorView>(assemble_spec(doc_a, outcomes_a)->Ok_0)
            &&& reply_b == Ok::<DataView, ErrorView>(assemble_spec(doc_b, outcomes_b)->Ok_0)
            &&& a_then_b == cache.insert(key, reply_b->Ok_0.marked_cached())
            &&& b_then_a == cache.insert(key, reply_a->Ok_0.marked_cached())
            &&& a_then_b.dom() == cache.dom().insert(key)
            &&& b_then_a.dom() == cache.dom().insert(key)
        }),
{
    miss_runs_the_pipeline(cache, key, Ok(token_a), Ok(doc_a), outcomes_a);
    miss_runs_the_pipeline(cache, key, Ok(token_b), Ok(doc_b), outcomes_b);
    let a = assemble_spec(doc_a, outcomes_a)->Ok_0.marked_cached();
    let b = assemble_spec(doc_b, outcomes_b)->Ok_0.marked_cached();
    assert(cache.insert(key, a).insert(key, b) =~= cache.insert(key, b));
    assert(cache.insert(key, b).insert(key, a) =~= cache.insert(key, a));
    assert(cache.insert(key, a).dom() =~= cache.dom().insert(key));
    assert(cache.insert(key, b).dom() =~= cache.dom().insert(key));
}

/// The action that ends a request which has rendered the jobs of `doc`.
pub open spec fn last_action(
    key: CacheKeyView,
    doc: SymbolabResponseView,
    outcomes: Seq<Outcome>,
) -> ActionView {
    step_spec(
        RequestView { key, stage: StageView::Rendering(doc) },
        EventView::Rendered(outcomes),
    ).1
}

} // verus!
