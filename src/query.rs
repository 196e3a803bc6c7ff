use vstd::prelude::*;

verus! {

/// The typed outcome of a search.
#[derive(Debug, Clone, Copy, PartialEq, Eq, Structural)]
pub enum SearchStatus {
    /// Results were found; the list is nearest first.
    Success,
    /// The store is held by indexing.
    DatabaseBusy,
    /// The model is held elsewhere or has not finished initialising.
    ModelNotReady,
    /// The store holds no item yet.
    StillSeeding,
    /// The query ran and found nothing.
    NoResults,
    /// Counting the items or running the query failed.
    SearchError,
}

/// Where a search stands: the next thing to do, or the answer.
#[derive(Debug, Clone, Copy, PartialEq, Eq, Structural)]
pub enum SearchStep {
    /// Try to take the store lock, without waiting.
    LockStore,
    /// Try to take the model lock, without waiting, and check readiness.
    LockModel,
    /// Count the stored items.
    CountItems,
    /// Embed the query, prepare the index and scan it.
    RunQuery,
    /// Answer with this status.
    Respond(SearchStatus),
}

/// What the caller observed when performing a step.
#[derive(Debug, Clone, Copy, PartialEq, Eq, Structural)]
pub enum SearchEvent {
    /// Whether the store lock was free.
    StoreLock { acquired: bool },
    /// Whether the model lock was free, and whether the model is ready.
    ModelLock { acquired: bool, ready: bool },
    /// How many items the store holds.
    ItemCount(i64),
    /// The query ran and returned this many rows.
    QueryRows(usize),
    /// Counting the items or running the query failed.
    QueryFailed,
}

/// The step that follows `s` once `e` is observed; an event that does not
/// answer the current step leaves it as it is.
pub open spec fn search_next(s: SearchStep, e: SearchEvent) -> SearchStep {
    match (s, e) {
        (SearchStep::LockStore, SearchEvent::StoreLock { acquired }) => if acquired {
            SearchStep::LockModel
        } else {
            SearchStep::Respond(SearchStatus::DatabaseBusy)
        },
        (SearchStep::LockModel, SearchEvent::ModelLock { acquired, ready }) => if acquired && ready {
            SearchStep::CountItems
        } else {
            SearchStep::Respond(SearchStatus::ModelNotReady)
        },
        (SearchStep::CountItems, SearchEvent::ItemCount(n)) => if n <= 0 {
            SearchStep::Respond(SearchStatus::StillSeeding)
        } else {
            SearchStep::RunQuery
        },
        (SearchStep::RunQuery, SearchEvent::QueryRows(n)) => if n == 0 {
            SearchStep::Respond(SearchStatus::NoResults)
        } else {
            SearchStep::Respond(SearchStatus::Success)
        },
        (SearchStep::CountItems, SearchEvent::QueryFailed) => SearchStep::Respond(
            SearchStatus::SearchError,
        ),
        (SearchStep::RunQuery, SearchEvent::QueryFailed) => SearchStep::Respond(
            SearchStatus::SearchError,
        ),
        _ => s,
    }
}

/// The step reached after a sequence of observations.
pub open spec fn search_run(s: SearchStep, events: Seq<SearchEvent>) -> SearchStep
    decreases events.len(),
{
    if events.len() == 0 {
        s
    } else {
        search_run(search_next(s, events[0]), events.drop_first())
    }
}

impl SearchStep {
    /// The first step of every search.
    pub fn start() -> (r: SearchStep)
        ensures
            r == SearchStep::LockStore,
    {
        SearchStep::LockStore
    }

    /// Advances the search by one observation.
    pub fn observe(&mut self, event: SearchEvent)
        ensures
            *final(self) == search_next(*old(self), event),
    {
        let next = match (*self, event) {
            (SearchStep::LockStore, SearchEvent::StoreLock { acquired }) => if acquired {
                SearchStep::LockModel
            } else {
                SearchStep::Respond(SearchStatus::DatabaseBusy)
            },
            (SearchStep::LockModel, SearchEvent::ModelLock { acquired, ready }) => if acquired
                && ready {
                SearchStep::CountItems
            } else {
                SearchStep::Respond(SearchStatus::ModelNotReady)
            },
            (SearchStep::CountItems, SearchEvent::ItemCount(n)) => if n <= 0 {
                SearchStep::Respond(SearchStatus::StillSeeding)
            } else {
                SearchStep::RunQuery
            },
            (SearchStep::RunQuery, SearchEvent::QueryRows(n)) => if n == 0 {
                SearchStep::Respond(SearchStatus::NoResults)
            } else {
                SearchStep::Respond(SearchStatus::Success)
            },
            (SearchStep::CountItems, SearchEvent::QueryFailed) => SearchStep::Respond(
                SearchStatus::SearchError,
            ),
            (SearchStep::RunQuery, SearchEvent::QueryFailed) => SearchStep::Respond(
                SearchStatus::SearchError,
            ),
            (s, _) => s,
        };
        *self = next;
    }

    /// The answer, once the search has one.
    pub fn outcome(&self) -> (r: Option<SearchStatus>)
        ensures
            r is None <==> !(*self is Respond),
            r matches Some(st) ==> *self == SearchStep::Respond(st),
    {
        match *self {
            SearchStep::Respond(st) => Some(st),
            _ => None,
        }
    }
}

/// What a search answers to its caller.
#[derive(Debug, Clone)]
pub struct SearchResponse {
    pub status: SearchStatus,
    /// The ranked results, serialised, when the query ran.
    pub data: Option<String>,
    pub success: bool,
    pub message: Option<String>,
}

/// The message that goes with a status other than `Success`.
pub open spec fn status_message(status: SearchStatus) -> Seq<char> {
    match status {
        SearchStatus::Success => Seq::empty(),
        SearchStatus::DatabaseBusy => "Database is busy"@,
        SearchStatus::ModelNotReady => "Model is still loading"@,
        SearchStatus::StillSeeding => "Database is still seeding"@,
        SearchStatus::NoResults => "No results"@,
        SearchStatus::SearchError => "Search error"@,
    }
}

/// Whether a status means that the query ran.
pub open spec fn is_success(status: SearchStatus) -> bool {
    status is Success || status is NoResults
}

/// The response for a status. `data` is kept only where the query ran.
pub fn respond(status: SearchStatus, data: Option<String>) -> (r: SearchResponse)
    ensures
        r.status == status,
        r.success == is_success(status),
        r.data == (if is_success(status) {
            data
        } else {
            None
        }),
        status is Success ==> r.message is None,
        !(status is Success) ==> (r.message matches Some(m) && m@ == status_message(status)),
{
    let message = match status {
        SearchStatus::Success => None,
        SearchStatus::DatabaseBusy => Some(String::from_str("Database is busy")),
        SearchStatus::ModelNotReady => Some(String::from_str("Model is still loading")),
        SearchStatus::StillSeeding => Some(String::from_str("Database is still seeding")),
        SearchStatus::NoResults => Some(String::from_str("No results")),
        SearchStatus::SearchError => Some(String::from_str("Search error")),
    };
    let success = match status {
        SearchStatus::Success => true,
        SearchStatus::NoResults => true,
        _ => false,
    };
    SearchResponse { status, data: if success {
        data
    } else {
        None
    }, success, message }
}

proof fn lemma_respond_stays(st: SearchStatus, events: Seq<SearchEvent>)
    ensures
        search_run(SearchStep::Respond(st), events) == SearchStep::Respond(st),
    decreases events.len(),
{
    if events.len() > 0 {
        lemma_respond_stays(st, events.drop_first());
    }
}

proof fn lemma_run_query_not_seeding(events: Seq<SearchEvent>)
    ensures
        search_run(SearchStep::RunQuery, events) != SearchStep::Respond(SearchStatus::StillSeeding),
    decreases events.len(),
{
    if events.len() > 0 {
        let next = search_next(SearchStep::RunQuery, events[0]);
        if next == SearchStep::RunQuery {
            lemma_run_query_not_seeding(events.drop_first());
        } else {
            let st = choose|st: SearchStatus| next == SearchStep::Respond(st);
            lemma_respond_stays(st, events.drop_first());
        }
    }
}

proof fn lemma_run_concat(s: SearchStep, a: Seq<SearchEvent>, b: Seq<SearchEvent>)
    ensures
        search_run(s, a + b) == search_run(search_run(s, a), b),
    decreases a.len(),
{
    if a.len() == 0 {
        assert(a + b == b);
    } else {
        assert((a + b).drop_first() == a.drop_first() + b);
        assert((a + b)[0] == a[0]);
        lemma_run_concat(search_next(s, a[0]), a.drop_first(), b);
    }
}

/// The events of a search that takes both locks with a ready model and then
/// counts `count` items.
pub open spec fn admitted(count: i64) -> Seq<SearchEvent> {
    seq![
        SearchEvent::StoreLock { acquired: true },
        SearchEvent::ModelLock { acquired: true, ready: true },
        SearchEvent::ItemCount(count),
    ]
}

proof fn lemma_admitted(count: i64)
    ensures
        search_run(SearchStep::LockStore, admitted(count)) == (if count <= 0 {
            SearchStep::Respond(SearchStatus::StillSeeding)
        } else {
            SearchStep::RunQuery
        }),
{
    let a = admitted(count);
    let a1 = a.drop_first();
    let a2 = a1.drop_first();
    let a3 = a2.drop_first();
    assert(a[0] == SearchEvent::StoreLock { acquired: true });
    assert(a1[0] == SearchEvent::ModelLock { acquired: true, ready: true });
    assert(a2[0] == SearchEvent::ItemCount(count));
    assert(a3.len() == 0);
    let s3 = search_next(SearchStep::CountItems, SearchEvent::ItemCount(count));
    assert(search_run(s3, a3) == s3);
    assert(search_run(SearchStep::CountItems, a2) == s3);
    assert(search_run(SearchStep::LockModel, a1) == s3);
}

/// Readiness comes before results: against an empty store a search answers
/// `StillSeeding`; once the store holds an item it never does, and a query that
/// runs answers `Success` or `NoResults`.
pub proof fn lemma_readiness_ordering(count: i64, rest: Seq<SearchEvent>, rows: usize)
    ensures
        count <= 0 ==> search_run(SearchStep::LockStore, admitted(count) + rest) == SearchStep::Respond(
            SearchStatus::StillSeeding,
        ),
        count > 0 ==> search_run(SearchStep::LockStore, admitted(count) + rest) != SearchStep::Respond(
            SearchStatus::StillSeeding,
        ),
        count > 0 ==> (search_run(SearchStep::LockStore, admitted(count).push(SearchEvent::QueryRows(rows)))
            matches SearchStep::Respond(st) && (st is Success || st is NoResults)),
{
    lemma_admitted(count);
    lemma_run_concat(SearchStep::LockStore, admitted(count), rest);
    if count <= 0 {
        lemma_respond_stays(SearchStatus::StillSeeding, rest);
    } else {
        lemma_run_query_not_seeding(rest);
        let last = seq![SearchEvent::QueryRows(rows)];
        assert(admitted(count).push(SearchEvent::QueryRows(rows)) == admitted(count) + last);
        lemma_run_concat(SearchStep::LockStore, admitted(count), last);
        assert(last.drop_first().len() == 0);
        let fin = search_next(SearchStep::RunQuery, last[0]);
        assert(search_run(fin, last.drop_first()) == fin);
        assert(search_run(SearchStep::RunQuery, last) == search_next(SearchStep::RunQuery, last[0]));
    }
}

/// A search that finds the store lock taken answers `DatabaseBusy` at once,
/// whatever it observes afterwards; no step of a search writes to the store.
pub proof fn lemma_busy_store_fails_fast(rest: Seq<SearchEvent>)
    ensures
        search_next(SearchStep::LockStore, SearchEvent::StoreLock { acquired: false })
            == SearchStep::Respond(SearchStatus::DatabaseBusy),
        search_run(SearchStep::LockStore, seq![SearchEvent::StoreLock { acquired: false }] + rest)
            == SearchStep::Respond(SearchStatus::DatabaseBusy),
{
    let evs = seq![SearchEvent::StoreLock { acquired: false }] + rest;
    assert(evs.drop_first() == rest);
    lemma_respond_stays(SearchStatus::DatabaseBusy, rest);
}

} // verus!
