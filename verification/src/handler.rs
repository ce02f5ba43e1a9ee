//! The dispatch of one request: which callback runs next, when the chain
//! stops, and in which order the tails run.
//!
//! Callbacks and tails do their work outside this library. The handler is
//! the part that decides: it is told how the last callback or tail left the
//! context, and answers with what is to be done next. The caller does that
//! and asks again, until the answer is to respond.

use vstd::prelude::*;
use crate::context::Context;
use crate::matcher::{found_callback, route_found, route_parameters};
use crate::pairs::Pairs;
use crate::payload::{payload, response_payload};
use crate::server::{Route, Server};
use crate::text::{lowercase, text_eq, to_lowercase};
use crate::version::HttpVersion;

verus! {

/// Where the dispatch of a request stands.
#[derive(Clone, Copy, Debug, PartialEq, Eq, Structural)]
pub enum Phase {
    /// Entries are being scanned and their callbacks run.
    Running,
    /// A callback ended the chain; the tails run.
    ShortCircuited,
    /// No callback ended the chain; the response says so, and the tails run.
    NotFound,
    /// Nothing is left to run.
    Done,
}

/// What the caller is to do next.
#[derive(Debug)]
pub enum Action<T> {
    /// Run the callback at position `callback` of the entry at position
    /// `entry`.
    Call { entry: usize, callback: usize },
    /// Run this tail.
    Tail(T),
    /// Send the response.
    Respond,
}

/// The state of a dispatch.
pub struct Progress<T> {
    /// The method of the request.
    pub method: Seq<char>,
    /// The path of the request.
    pub path: Seq<char>,
    /// The version of the request.
    pub http_version: HttpVersion,
    /// The phase.
    pub phase: Phase,
    /// The entry whose callback ran last, or from which the scan starts.
    pub entry: nat,
    /// The position in its entry of the callback that ran last.
    pub callback: nat,
    /// Whether a callback or a tail was handed out and its outcome is due.
    pub awaiting: bool,
    /// The parameters that the entry of the last callback bound.
    pub params: Seq<(Seq<char>, Seq<char>)>,
    /// The tails that are queued and have not run, in the order in which
    /// they were returned.
    pub queue: Seq<T>,
}

/// Whether an entry's method pattern admits the method of a request: it is
/// `*`, or it is the method but for letter case.
pub open spec fn method_applies(pattern: Seq<char>, method: Seq<char>) -> bool {
    pattern == "*"@ || lowercase(pattern) == lowercase(method)
}

/// Whether an entry's path pattern admits the path of a request: it is `*`,
/// or the path matches it.
pub open spec fn path_applies(pattern: Seq<char>, path: Seq<char>) -> bool {
    pattern == "*"@ || route_found(path, pattern)
}

/// Whether an entry is for a request with this method and path.
pub open spec fn applies(route: Route, method: Seq<char>, path: Seq<char>) -> bool {
    method_applies(route.method, method) && path_applies(route.path, path)
}

/// The parameters that an entry binds in the path of a request.
pub open spec fn parameters_of(route: Route, path: Seq<char>) -> Seq<(Seq<char>, Seq<char>)> {
    if route.path == "*"@ {
        Seq::empty()
    } else {
        route_parameters(path, route.path)
    }
}

/// The first entry at or after position `from` that is for the request and
/// has a callback to run.
pub open spec fn next_entry(table: Seq<Route>, method: Seq<char>, path: Seq<char>, from: nat)
    -> Option<nat>
    decreases table.len() - from,
{
    if from >= table.len() {
        None
    } else if applies(table[from as int], method, path) && table[from as int].callbacks > 0 {
        Some(from)
    } else {
        next_entry(table, method, path, from + 1)
    }
}

/// The state in which the dispatch of a request starts.
pub open spec fn initial<T>(method: Seq<char>, path: Seq<char>, http_version: HttpVersion)
    -> Progress<T> {
    Progress {
        method,
        path,
        http_version,
        phase: Phase::Running,
        entry: 0,
        callback: 0,
        awaiting: false,
        params: Seq::empty(),
        queue: Seq::empty(),
    }
}

/// A step while the tails run. `flag` is the continue flag of the context.
///
/// The tail queued last leaves the queue and runs next. Nothing more runs
/// once a tail has left the flag false, or the queue is empty.
pub open spec fn tails_step<T>(p: Progress<T>, flag: bool) -> (Progress<T>, Action<T>) {
    if (p.awaiting && !flag) || p.queue.len() == 0 {
        (Progress { phase: Phase::Done, awaiting: false, ..p }, Action::Respond)
    } else {
        (Progress { awaiting: true, queue: p.queue.drop_last(), ..p }, Action::Tail(p.queue.last()))
    }
}

/// Whether the entry of the callback that ran last has another callback.
pub open spec fn entry_goes_on<T>(p: Progress<T>, table: Seq<Route>) -> bool {
    p.awaiting && p.entry < table.len() && p.callback + 1 < table[p.entry as int].callbacks
}

/// The position from which the scan for the next entry goes on.
pub open spec fn scan_from<T>(p: Progress<T>) -> nat {
    if p.awaiting {
        p.entry + 1
    } else {
        p.entry
    }
}

/// Whether this step finds that no callback ended the chain: the flag is
/// still true and no callback is left to run.
pub open spec fn misses<T>(p: Progress<T>, table: Seq<Route>, flag: bool) -> bool {
    p.phase == Phase::Running && flag && !entry_goes_on(p, table) && next_entry(
        table,
        p.method,
        p.path,
        scan_from(p),
    ) is None
}

/// A step while callbacks run. `flag` is the continue flag of the context;
/// `tail` is the tail that the callback that ran last returned, if any.
///
/// A returned tail is queued. With the flag false the chain ends and the
/// tails run. Otherwise the next callback of the same entry runs, or the
/// first callback of the next entry that is for the request; where there is
/// none, the request was not handled, and the tails run.
pub open spec fn running_step<T>(p: Progress<T>, table: Seq<Route>, flag: bool, tail: Option<T>)
    -> (Progress<T>, Action<T>) {
    let queue = if p.awaiting && tail is Some {
        p.queue.push(tail->0)
    } else {
        p.queue
    };
    if !flag {
        tails_step(Progress { phase: Phase::ShortCircuited, awaiting: false, queue, ..p }, flag)
    } else if entry_goes_on(p, table) {
        (
            Progress { callback: p.callback + 1, queue, ..p },
            Action::Call { entry: p.entry as usize, callback: (p.callback + 1) as usize },
        )
    } else {
        match next_entry(table, p.method, p.path, scan_from(p)) {
            Some(e) => (
                Progress {
                    entry: e,
                    callback: 0,
                    awaiting: true,
                    params: parameters_of(table[e as int], p.path),
                    queue,
                    ..p
                },
                Action::Call { entry: e as usize, callback: 0 },
            ),
            None => tails_step(
                Progress { phase: Phase::NotFound, awaiting: false, queue, ..p },
                flag,
            ),
        }
    }
}

/// One step of a dispatch: the state after it, and what is to be done next.
pub open spec fn step<T>(p: Progress<T>, table: Seq<Route>, flag: bool, tail: Option<T>) -> (
    Progress<T>,
    Action<T>,
) {
    match p.phase {
        Phase::Running => running_step(p, table, flag, tail),
        Phase::ShortCircuited => tails_step(p, flag),
        Phase::NotFound => tails_step(p, flag),
        Phase::Done => (p, Action::Respond),
    }
}

/// The actions of a dispatch that starts in the state `p` and is handed
/// `events` one after the other: for each step the continue flag of the
/// context, and the tail that the callback that ran last returned, if any.
pub open spec fn run<T>(p: Progress<T>, table: Seq<Route>, events: Seq<(bool, Option<T>)>) -> Seq<
    Action<T>,
>
    decreases events.len(),
{
    if events.len() == 0 {
        Seq::empty()
    } else {
        let (next, action) = step(p, table, events[0].0, events[0].1);
        seq![action] + run(next, table, events.drop_first())
    }
}

/// The first entry, from position `from` on, that is for the request of
/// `method` and `path` and has a callback, with the parameters it binds.
fn find_entry<C>(server: &Server<C>, method: &str, path: &str, from: usize) -> (r: Option<
    (usize, Pairs),
>)
    ensures
        match r {
            Some((e, params)) => e < server.adds@.len() && server.adds@[e as int].2@.len() > 0
                && next_entry(
                server.routes(),
                method@,
                path@,
                from as nat,
            ) == Some(e as nat) && params@ == parameters_of(server.routes()[e as int], path@),
            None => next_entry(server.routes(), method@, path@, from as nat) is None,
        },
{
    let n: usize = server.adds.len();
    let wanted = to_lowercase(method);
    let mut i: usize = from;
    while i < n
        invariant
            n == server.adds@.len(),
            wanted@ == lowercase(method@),
            from <= i,
            next_entry(server.routes(), method@, path@, from as nat) == next_entry(
                server.routes(),
                method@,
                path@,
                i as nat,
            ),
        decreases n - i,
    {
        let entry = &server.adds[i];
        assert(server.routes()[i as int].method == entry.0@);
        assert(server.routes()[i as int].path == entry.1@);
        assert(server.routes()[i as int].callbacks == entry.2@.len());
        if entry.2.len() > 0 && (text_eq(entry.0.as_str(), "*") || to_lowercase(entry.0.as_str())
            == wanted) {
            if text_eq(entry.1.as_str(), "*") {
                return Some((i, Pairs::new()));
            }
            let found = found_callback(path, entry.1.as_str());
            if found.found {
                return Some((i, found.params));
            }
        }
        i += 1;
    }
    None
}

/// The dispatch of one request. `T` is the type of a tail; the handler
/// queues tails and never calls them.
pub struct Handler<T> {
    method: String,
    path: String,
    http_version: HttpVersion,
    phase: Phase,
    entry: usize,
    callback: usize,
    awaiting: bool,
    params: Pairs,
    tails: Vec<T>,
}

impl<T> Handler<T> {
    /// The state of the dispatch.
    pub closed spec fn view(&self) -> Progress<T> {
        Progress {
            method: self.method@,
            path: self.path@,
            http_version: self.http_version,
            phase: self.phase,
            entry: self.entry as nat,
            callback: self.callback as nat,
            awaiting: self.awaiting,
            params: self.params@,
            queue: self.tails@,
        }
    }

    /// The dispatch of the request of `context`; none where the raw text of
    /// the request is empty, to which no response is due.
    pub fn start(context: &Context) -> (r: Option<Handler<T>>)
        ensures
            r is None <==> context.request.header@.len() == 0,
            r matches Some(h) ==> h@ == initial::<T>(
                context.request.method@,
                context.request.path@,
                context.request.http_version,
            ),
    {
        if context.request.header.as_str().is_empty() {
            None
        } else {
            Some(
                Handler {
                    method: context.request.method.clone(),
                    path: context.request.path.clone(),
                    http_version: context.request.http_version,
                    phase: Phase::Running,
                    entry: 0,
                    callback: 0,
                    awaiting: false,
                    params: Pairs::new(),
                    tails: Vec::new(),
                },
            )
        }
    }

    /// The phase of the dispatch.
    pub fn phase(&self) -> (r: Phase)
        ensures
            r == self@.phase,
    {
        self.phase
    }

    /// The version of the request, as it was when the dispatch started.
    pub fn http_version(&self) -> (r: HttpVersion)
        ensures
            r == self@.http_version,
    {
        self.http_version
    }

    /// The text of the response of `context`, in the version that the
    /// request had when the dispatch started.
    pub fn respond(&self, context: &Context) -> (r: String)
        ensures
            r@ == payload(
                self@.http_version,
                context.response.status as nat,
                context.response.header@,
                context.response.content_type@,
                context.response.body@,
            ),
    {
        response_payload(context, self.http_version)
    }

    /// A step while the tails run.
    fn run_tails(&mut self, flag: bool) -> (action: Action<T>)
        ensures
            (final(self)@, action) == tails_step(old(self)@, flag),
            action !is Call,
    {
        if self.awaiting && !flag {
            self.phase = Phase::Done;
            self.awaiting = false;
            return Action::Respond;
        }
        match self.tails.pop() {
            Some(tail) => {
                self.awaiting = true;
                Action::Tail(tail)
            },
            None => {
                self.phase = Phase::Done;
                self.awaiting = false;
                Action::Respond
            },
        }
    }

    /// Takes the dispatch one step on.
    ///
    /// `context` is the context as the callback or tail that ran last
    /// returned it, or as the request started with it; `tail` is the tail
    /// that the callback returned, if any. The answer is what to do next.
    /// Before a callback is handed out, the continue flag of `context` is
    /// reset and its route parameters are those that the callback's entry
    /// binds. Where no callback ended the chain, the response becomes 404
    /// `Not Found`, whatever a callback wrote to it.
    pub fn advance<C>(&mut self, server: &Server<C>, context: &mut Context, tail: Option<T>) -> (action:
        Action<T>)
        ensures
            (final(self)@, action) == step(old(self)@, server.routes(), old(context).next, tail),
            action matches Action::Call { entry, callback } ==> entry < server.adds@.len()
                && callback < server.adds@[entry as int].2@.len(),
            final(context).next == (old(context).next && action !is Call),
            final(context).state == old(context).state,
            final(context).request.same_but_parameters(old(context).request),
            final(context).request.param_store@ == if action is Call {
                final(self)@.params
            } else {
                old(context).request.param_store@
            },
            final(context).response.header == old(context).response.header,
            final(context).response.content_type == old(context).response.content_type,
            if misses(old(self)@, server.routes(), old(context).next) {
                final(context).response.status == 404 && final(context).response.body@
                    == "Not Found"@
            } else {
                final(context).response.status == old(context).response.status
                    && final(context).response.body == old(context).response.body
            },
    {
        match self.phase {
            Phase::Running => {
                if self.awaiting {
                    match tail {
                        Some(t) => {
                            self.tails.push(t);
                        },
                        None => {},
                    }
                }
                if !context.next {
                    self.phase = Phase::ShortCircuited;
                    self.awaiting = false;
                    return self.run_tails(false);
                }
                let n: usize = server.adds.len();
                if self.awaiting && self.entry < n {
                    let count: usize = server.adds[self.entry].2.len();
                    assert(server.routes()[self.entry as int].callbacks == count);
                    if self.callback < count && self.callback + 1 < count {
                        self.callback = self.callback + 1;
                        context.next = false;
                        context.request.param_store = self.params.clone();
                        return Action::Call { entry: self.entry, callback: self.callback };
                    }
                }
                let found = if !self.awaiting {
                    find_entry(server, self.method.as_str(), self.path.as_str(), self.entry)
                } else if self.entry < n {
                    find_entry(server, self.method.as_str(), self.path.as_str(), self.entry + 1)
                } else {
                    None
                };
                match found {
                    Some((e, params)) => {
                        assert(server.routes()[e as int].callbacks == server.adds@[e as int].2@.len());
                        self.entry = e;
                        self.callback = 0;
                        self.awaiting = true;
                        self.params = params;
                        context.next = false;
                        context.request.param_store = self.params.clone();
                        Action::Call { entry: e, callback: 0 }
                    },
                    None => {
                        context.response.status = 404;
                        context.response.body = "Not Found".to_owned();
                        self.phase = Phase::NotFound;
                        self.awaiting = false;
                        self.run_tails(true)
                    },
                }
            },
            Phase::ShortCircuited => self.run_tails(context.next),
            Phase::NotFound => self.run_tails(context.next),
            Phase::Done => Action::Respond,
        }
    }
}

/// What `next_entry` finds is the first entry, from `from` on, that is for
/// the request and has a callback; it finds none only where there is none.
pub proof fn lemma_next_entry(table: Seq<Route>, method: Seq<char>, path: Seq<char>, from: nat)
    ensures
        match next_entry(table, method, path, from) {
            Some(e) => from <= e < table.len() && applies(table[e as int], method, path)
                && table[e as int].callbacks > 0 && forall|k: int|
                from <= k < e ==> !(applies(#[trigger] table[k], method, path) && table[k].callbacks
                    > 0),
            None => forall|k: int|
                from <= k < table.len() ==> !(applies(#[trigger] table[k], method, path)
                    && table[k].callbacks > 0),
        },
    decreases table.len() - from,
{
    if from < table.len() {
        lemma_next_entry(table, method, path, from + 1);
    }
}

/// A request whose method and path are, but for letter case, the patterns
/// of an entry is a request that the entry is for.
pub proof fn law_static_entry_applies(route: Route, method: Seq<char>, path: Seq<char>)
    requires
        lowercase(route.method) == lowercase(method),
        lowercase(route.path) == lowercase(path),
    ensures
        applies(route, method, path),
{
}

/// Entries are taken in the order in which they were added: the first
/// callback to run is the first callback of the first entry that is for the
/// request, whatever entries follow it, with the parameters that this entry
/// binds.
pub proof fn law_first_entry_runs<T>(
    table: Seq<Route>,
    method: Seq<char>,
    path: Seq<char>,
    http_version: HttpVersion,
    i: int,
)
    requires
        0 <= i < table.len(),
        applies(table[i], method, path),
        table[i].callbacks > 0,
        forall|k: int|
            0 <= k < i ==> !(applies(#[trigger] table[k], method, path) && table[k].callbacks > 0),
    ensures
        step(initial::<T>(method, path, http_version), table, true, None).1 == (Action::<
            T,
        >::Call { entry: i as usize, callback: 0 }),
        step(initial::<T>(method, path, http_version), table, true, None).0.params
            == parameters_of(table[i], path),
{
    lemma_next_entry(table, method, path, 0);
}

/// A callback that returns with the continue flag false ends the chain: the
/// step that follows hands out no callback, and the dispatch has left the
/// running phase.
pub proof fn law_unset_flag_ends_chain<T>(p: Progress<T>, table: Seq<Route>, tail: Option<T>)
    requires
        p.phase == Phase::Running,
    ensures
        step(p, table, false, tail).1 !is Call,
        step(p, table, false, tail).0.phase != Phase::Running,
{
}

/// Once the dispatch has left the running phase it does not return to it,
/// and no step hands out a callback.
pub proof fn law_chain_stays_ended<T>(
    p: Progress<T>,
    table: Seq<Route>,
    flag: bool,
    tail: Option<T>,
)
    requires
        p.phase != Phase::Running,
    ensures
        step(p, table, flag, tail).1 !is Call,
        step(p, table, flag, tail).0.phase != Phase::Running,
{
}

/// A dispatch answers each event with one action.
pub proof fn lemma_run_len<T>(p: Progress<T>, table: Seq<Route>, events: Seq<(bool, Option<T>)>)
    ensures
        run(p, table, events).len() == events.len(),
    decreases events.len(),
{
    if events.len() > 0 {
        let (next, action) = step(p, table, events[0].0, events[0].1);
        lemma_run_len(next, table, events.drop_first());
    }
}

/// After the chain has ended, no action of the dispatch is a callback.
pub proof fn lemma_no_call_after_chain<T>(
    p: Progress<T>,
    table: Seq<Route>,
    events: Seq<(bool, Option<T>)>,
    k: int,
)
    requires
        p.phase != Phase::Running,
        0 <= k < events.len(),
    ensures
        run(p, table, events).len() == events.len(),
        run(p, table, events)[k] !is Call,
    decreases events.len(),
{
    lemma_run_len(p, table, events);
    let (next, action) = step(p, table, events[0].0, events[0].1);
    let rest = events.drop_first();
    lemma_run_len(next, table, rest);
    if k > 0 {
        lemma_no_call_after_chain(next, table, rest, k - 1);
        assert(run(p, table, events)[k] == run(next, table, rest)[k - 1]);
    }
}

/// Where a callback leaves the continue flag false, as it is when the
/// callback starts, no further callback runs, whatever happens afterwards:
/// of an entry whose first callback does not set the flag, that callback
/// is the only one to run.
pub proof fn law_one_callback_runs<T>(
    p: Progress<T>,
    table: Seq<Route>,
    events: Seq<(bool, Option<T>)>,
    k: int,
)
    requires
        p.phase == Phase::Running,
        0 <= k < events.len(),
        !events[0].0,
    ensures
        run(p, table, events).len() == events.len(),
        run(p, table, events)[k] !is Call,
{
    lemma_run_len(p, table, events);
    let (next, action) = step(p, table, events[0].0, events[0].1);
    let rest = events.drop_first();
    lemma_run_len(next, table, rest);
    if k > 0 {
        lemma_no_call_after_chain(next, table, rest, k - 1);
        assert(run(p, table, events)[k] == run(next, table, rest)[k - 1]);
    }
}

/// Tails run in the reverse of the order in which they were queued: while
/// each tail leaves the continue flag true, the tail that runs after `k`
/// others is the one that `k` others were queued after.
pub proof fn law_tails_run_in_reverse<T>(
    p: Progress<T>,
    table: Seq<Route>,
    events: Seq<(bool, Option<T>)>,
    k: int,
)
    requires
        p.phase == Phase::ShortCircuited || p.phase == Phase::NotFound,
        0 <= k < p.queue.len(),
        k < events.len(),
        p.awaiting ==> events[0].0,
        forall|j: int| 1 <= j <= k ==> (#[trigger] events[j]).0,
    ensures
        run(p, table, events).len() == events.len(),
        run(p, table, events)[k] == Action::Tail(p.queue[p.queue.len() - 1 - k]),
    decreases k,
{
    lemma_run_len(p, table, events);
    let (next, action) = step(p, table, events[0].0, events[0].1);
    let rest = events.drop_first();
    lemma_run_len(next, table, rest);
    if k > 0 {
        assert forall|j: int| 1 <= j <= k - 1 implies (#[trigger] rest[j]).0 by {
            assert(rest[j] == events[j + 1]);
        }
        assert(rest[0] == events[1]);
        law_tails_run_in_reverse(next, table, rest, k - 1);
        assert(run(p, table, events)[k] == run(next, table, rest)[k - 1]);
    }
}

/// A tail that a callback returns is queued behind the tails queued before
/// it; where the callback has ended the chain, its tail is the first to
/// run.
pub proof fn law_tail_is_queued_last<T>(p: Progress<T>, table: Seq<Route>, tail: T)
    requires
        p.phase == Phase::Running,
        p.awaiting,
    ensures
        step(p, table, true, Some(tail)).1 is Call ==> step(p, table, true, Some(tail)).0.queue
            == p.queue.push(tail),
        step(p, table, true, Some(tail)).1 !is Call ==> step(p, table, true, Some(tail)).1
            == Action::Tail(tail) && step(p, table, true, Some(tail)).0.queue == p.queue,
        step(p, table, false, Some(tail)).1 == Action::Tail(tail),
        step(p, table, false, Some(tail)).0.queue == p.queue,
{
    let queue = p.queue.push(tail);
    assert(queue.last() == tail);
    assert(queue.drop_last() == p.queue);
}

/// A tail that leaves the continue flag false is the last to run: the next
/// action is to respond.
pub proof fn law_tail_can_stop<T>(p: Progress<T>, table: Seq<Route>, tail: Option<T>)
    requires
        p.phase == Phase::ShortCircuited || p.phase == Phase::NotFound,
        p.awaiting,
    ensures
        step(p, table, false, tail).1 is Respond,
        step(p, table, false, tail).0.phase == Phase::Done,
{
}

} // verus!
