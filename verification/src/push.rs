//! Turning a server-pushed `StateChange` into the folder refresh Camel already
//! runs — the mail half of JMAP Push.
//!
//! An RFC 8620 §7.1 `StateChange` names the data types that changed in an
//! account. Two kinds of them matter here, and they ask for different work: an
//! `Email` or `EmailDelivery` change asks for the open folders' messages to be
//! listed again, and a `Mailbox` change asks whether the folder list changed
//! shape. [`actions_for`] is that decision and [`Work`] is what it asks for.
//!
//! Camel's refresh is synchronous, per folder and a network round trip, so it
//! runs on a worker of its own, and pushes that arrive while a pass is running
//! are coalesced: they make the running worker do exactly one more pass, doing
//! the union of everything asked for since it started. Not zero — a change that
//! arrived while a pass was reading the server may not be in what it read — and
//! not one per push, which would be a refresh storm, since a server pushes the
//! client's own writes back at it like anyone else's. [`Runs`] is that
//! book-keeping, as a state machine the worker's owner drives: it asks
//! [`Runs::request`] whether a push starts a pass, and [`Runs::pass_done`]
//! whether a finished pass owes another.

use vstd::prelude::*;

use crate::text::same_text;

verus! {

/// What one pass on the refresh worker should do.
#[derive(Debug, Clone, Copy, PartialEq, Eq, Structural)]
pub struct Work {
    /// Refresh every open folder's messages.
    pub refresh_messages: bool,
    /// Check whether the folder list changed shape.
    pub check_folder_list: bool,
}

/// No work at all.
pub open spec fn no_work() -> Work {
    Work { refresh_messages: false, check_folder_list: false }
}

/// Everything either of two requests asked for.
pub open spec fn spec_union(a: Work, b: Work) -> Work {
    Work {
        refresh_messages: a.refresh_messages || b.refresh_messages,
        check_folder_list: a.check_folder_list || b.check_folder_list,
    }
}

/// Whether a request asks for nothing.
pub open spec fn spec_is_empty(w: Work) -> bool {
    !w.refresh_messages && !w.check_folder_list
}

impl Default for Work {
    fn default() -> (w: Work)
        ensures
            w == no_work(),
    {
        Work { refresh_messages: false, check_folder_list: false }
    }
}

impl Work {
    /// Whether this asks for nothing.
    pub fn is_empty(self) -> (r: bool)
        ensures
            r == spec_is_empty(self),
    {
        !self.refresh_messages && !self.check_folder_list
    }

    /// Everything this and `other` ask for.
    pub fn union(self, other: Self) -> (w: Self)
        ensures
            w == spec_union(self, other),
    {
        Work {
            refresh_messages: self.refresh_messages || other.refresh_messages,
            check_folder_list: self.check_folder_list || other.check_folder_list,
        }
    }
}

/// Asking for both kinds of work at once loses neither, in either order, and
/// asking twice is asking once.
pub proof fn law_union_is_a_join(a: Work, b: Work, c: Work)
    ensures
        spec_union(a, b) == spec_union(b, a),
        spec_union(spec_union(a, b), c) == spec_union(a, spec_union(b, c)),
        spec_union(a, a) == a,
        spec_union(a, no_work()) == a,
        spec_is_empty(spec_union(a, b)) <==> spec_is_empty(a) && spec_is_empty(b),
{
}

/// Which Camel calls a pushed `StateChange`'s matched types ask for.
#[derive(Debug, Clone, Copy, PartialEq, Eq, Structural)]
pub struct Actions {
    /// A `Mailbox` change: the folder list itself may have changed.
    pub mark_folder_list_stale: bool,
    /// An `Email` or `EmailDelivery` change: some open folder's messages may
    /// have changed.
    pub request_message_refresh: bool,
}

/// The types whose change asks for a message refresh: `Email`, and RFC 8621
/// §5's delivery-only `EmailDelivery`.
pub open spec fn is_pushed_type(name: Seq<char>) -> bool {
    name == "Email"@ || name == "EmailDelivery"@
}

/// The type whose change may mean the folder list changed shape.
pub open spec fn is_folder_list_type(name: Seq<char>) -> bool {
    name == "Mailbox"@
}

/// The actions a push naming `types` asks for.
pub open spec fn spec_actions_for(types: Seq<String>) -> Actions {
    Actions {
        mark_folder_list_stale: exists|i: int|
            0 <= i < types.len() && is_folder_list_type(#[trigger] types[i]@),
        request_message_refresh: exists|i: int|
            0 <= i < types.len() && is_pushed_type(#[trigger] types[i]@),
    }
}

/// The JMAP types a mail store subscribes to: the message types, then the
/// folder-list type.
pub fn watched_types() -> (types: Vec<String>)
    ensures
        types@.len() == 3,
        types@[0]@ == "Email"@,
        types@[1]@ == "EmailDelivery"@,
        types@[2]@ == "Mailbox"@,
{
    let mut types: Vec<String> = Vec::new();
    types.push("Email".to_owned());
    types.push("EmailDelivery".to_owned());
    types.push("Mailbox".to_owned());
    types
}

/// Which Camel calls a push naming `types` asks for. A type this module does
/// not watch asks for nothing rather than for a guess.
pub fn actions_for(types: &[String]) -> (actions: Actions)
    ensures
        actions == spec_actions_for(types@),
{
    let mut stale = false;
    let mut refresh = false;
    let mut i: usize = 0;
    while i < types.len()
        invariant
            i <= types@.len(),
            stale == exists|j: int| 0 <= j < i && is_folder_list_type(#[trigger] types@[j]@),
            refresh == exists|j: int| 0 <= j < i && is_pushed_type(#[trigger] types@[j]@),
        decreases types@.len() - i,
    {
        let name = types[i].as_str();
        if same_text(name, "Mailbox") {
            stale = true;
        }
        if same_text(name, "Email") || same_text(name, "EmailDelivery") {
            refresh = true;
        }
        i = i + 1;
    }
    Actions { mark_folder_list_stale: stale, request_message_refresh: refresh }
}

/// The work a push naming `types` asks the refresh worker for.
pub open spec fn spec_work_for(types: Seq<String>) -> Work {
    Work {
        refresh_messages: spec_actions_for(types).request_message_refresh,
        check_folder_list: spec_actions_for(types).mark_folder_list_stale,
    }
}

/// The work a push naming `types` asks the refresh worker for.
pub fn work_for(types: &[String]) -> (w: Work)
    ensures
        w == spec_work_for(types@),
{
    let actions = actions_for(types);
    Work {
        refresh_messages: actions.request_message_refresh,
        check_folder_list: actions.mark_folder_list_stale,
    }
}

/// Whether a pass is running, and what further work has been asked for since
/// it started.
///
/// `pending` accumulates rather than counts: every push that arrives during one
/// pass is answered by the same following pass, which reads the server's
/// current state rather than a queue of deltas.
#[derive(Debug, Clone, Copy, PartialEq, Eq, Structural)]
pub struct Runs {
    pub running: bool,
    pub pending: Work,
}

/// What a request did.
#[derive(Debug, Clone, Copy, PartialEq, Eq, Structural)]
pub enum Start {
    /// Nothing was asked for, so nothing happens.
    Nothing,
    /// A pass is running; the work was folded into its next one.
    Coalesced,
    /// No pass was running: start a worker doing this.
    Run(Work),
}

/// The book-keeping of a worker that is not running.
pub open spec fn idle() -> Runs {
    Runs { running: false, pending: no_work() }
}

/// The book-keeping is consistent: nothing is owed unless a worker is running
/// to owe it.
pub open spec fn runs_wf(r: Runs) -> bool {
    r.running || spec_is_empty(r.pending)
}

/// The book-keeping after asking for `work`, and what the asker must do.
pub open spec fn spec_request(r: Runs, work: Work) -> (Runs, Start) {
    if spec_is_empty(work) {
        (r, Start::Nothing)
    } else if r.running {
        (Runs { running: true, pending: spec_union(r.pending, work) }, Start::Coalesced)
    } else {
        (Runs { running: true, pending: r.pending }, Start::Run(work))
    }
}

/// The book-keeping after a pass finished, and the work of the pass owed next,
/// if any.
pub open spec fn spec_pass_done(r: Runs) -> (Runs, Option<Work>) {
    if !spec_is_empty(r.pending) {
        (Runs { running: r.running, pending: no_work() }, Some(r.pending))
    } else {
        (Runs { running: false, pending: no_work() }, None)
    }
}

impl Runs {
    /// No worker running, nothing owed.
    pub fn new() -> (r: Runs)
        ensures
            r == idle(),
    {
        Runs { running: false, pending: Work::default() }
    }

    /// Asks for a pass doing at least `work`. Starts one when none is running,
    /// folds `work` into the running one's next pass otherwise, and does nothing
    /// for empty `work`.
    pub fn request(&mut self, work: Work) -> (start: Start)
        ensures
            (*final(self), start) == spec_request(*old(self), work),
    {
        if work.is_empty() {
            return Start::Nothing;
        }
        if self.running {
            self.pending = self.pending.union(work);
            return Start::Coalesced;
        }
        self.running = true;
        Start::Run(work)
    }

    /// A pass finished: the work of the next pass, if anything was asked for
    /// while it ran, or `None`, and the worker is done.
    pub fn pass_done(&mut self) -> (next: Option<Work>)
        ensures
            (*final(self), next) == spec_pass_done(*old(self)),
    {
        if !self.pending.is_empty() {
            let next = self.pending;
            self.pending = Work::default();
            return Some(next);
        }
        self.running = false;
        self.pending = Work::default();
        None
    }

    /// The store went away: nothing is running and nothing is owed.
    pub fn clear(&mut self)
        ensures
            *final(self) == idle(),
    {
        *self = Runs::new();
    }
}

/// The book-keeping after each of `works` is asked for in turn.
pub open spec fn after_requests(r: Runs, works: Seq<Work>) -> Runs
    decreases works.len(),
{
    if works.len() == 0 {
        r
    } else {
        after_requests(spec_request(r, works[0]).0, works.drop_first())
    }
}

/// Everything `works` asks for together.
pub open spec fn union_all(works: Seq<Work>) -> Work
    decreases works.len(),
{
    if works.len() == 0 {
        no_work()
    } else {
        spec_union(works[0], union_all(works.drop_first()))
    }
}

proof fn lemma_requests_while_running(r: Runs, works: Seq<Work>)
    requires
        r.running,
    ensures
        after_requests(r, works) == (Runs {
            running: true,
            pending: spec_union(r.pending, union_all(works)),
        }),
    decreases works.len(),
{
    if works.len() > 0 {
        let next = spec_request(r, works[0]).0;
        lemma_requests_while_running(next, works.drop_first());
    }
}

/// Every operation keeps the book-keeping consistent.
pub proof fn law_runs_stay_consistent(r: Runs, work: Work)
    requires
        runs_wf(r),
    ensures
        runs_wf(spec_request(r, work).0),
        runs_wf(spec_pass_done(r).0),
        runs_wf(idle()),
{
}

/// Asking for nothing never starts a pass and changes nothing.
pub proof fn law_no_work_starts_no_pass(r: Runs)
    ensures
        spec_request(r, no_work()) == (r, Start::Nothing),
{
}

/// With no pass running, a request for some work starts exactly one pass,
/// doing exactly that work.
pub proof fn law_idle_request_starts_a_pass(work: Work)
    requires
        !spec_is_empty(work),
    ensures
        spec_request(idle(), work) == (Runs { running: true, pending: no_work() }, Start::Run(
            work,
        )),
{
}

/// Pushes arriving while a pass runs coalesce into exactly one more pass: a
/// pass started by asking for `first` is still running while each of `works`
/// is asked for, none of those requests starts a pass, the pass that follows
/// does the union of everything they asked for, and once that one is done no
/// further pass runs unasked.
pub proof fn law_pushes_during_a_pass_coalesce(first: Work, works: Seq<Work>)
    requires
        !spec_is_empty(first),
        !spec_is_empty(union_all(works)),
    ensures
        ({
            let (running, start) = spec_request(idle(), first);
            let during = after_requests(running, works);
            let (after_pass, next) = spec_pass_done(during);
            &&& start == Start::Run(first)
            &&& forall|i: int|
                0 <= i < works.len() ==> !(spec_request(
                    after_requests(running, works.take(i)),
                    #[trigger] works[i],
                ).1 is Run)
            &&& during.running
            &&& next == Some(union_all(works))
            &&& after_pass == (Runs { running: true, pending: no_work() })
            &&& spec_pass_done(after_pass) == (idle(), None::<Work>)
        }),
{
    let running = Runs { running: true, pending: no_work() };
    assert(spec_request(idle(), first) == (running, Start::Run(first)));
    lemma_requests_while_running(running, works);
    assert forall|i: int| 0 <= i < works.len() implies !(spec_request(
        after_requests(running, works.take(i)),
        #[trigger] works[i],
    ).1 is Run) by {
        lemma_requests_while_running(running, works.take(i));
    }
}

/// A request that does not overlap a pass gets a pass of its own: a finished
/// worker with nothing owed is idle again.
pub proof fn law_requests_after_a_pass_each_run(work: Work)
    requires
        !spec_is_empty(work),
    ensures
        ({
            let (running, start) = spec_request(idle(), work);
            let (done, next) = spec_pass_done(running);
            &&& start == Start::Run(work)
            &&& next is None
            &&& done == idle()
            &&& spec_request(done, work).1 == Start::Run(work)
        }),
{
}

} // verus!
