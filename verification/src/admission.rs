//! Admission of queries under a fixed limit of concurrent executions.
//!
//! The controller is a counting semaphore with a first-in, first-out queue,
//! written as a state machine: a query asks for a ticket, the ticket holds a
//! permit or waits, and giving the ticket up frees the permit for the ticket
//! that has waited longest. The controller never blocks; whoever drives it
//! parks a queued query until a release names its ticket.
use vstd::prelude::*;

verus! {

/// What a request for admission came to.
#[derive(Clone, Copy, Debug, PartialEq, Eq, Structural)]
pub enum Admission {
    /// The ticket holds a permit.
    Granted(u128),
    /// Every permit is taken; the ticket waits in line.
    Queued(u128),
    /// The controller is closed or has no ticket left to give.
    Refused,
}

/// The mathematical value of the controller.
pub struct AdmissionState {
    /// How many tickets may hold a permit at once.
    pub limit: nat,
    /// The tickets that hold a permit.
    pub holders: Seq<u128>,
    /// The tickets that wait, the one that has waited longest first.
    pub waiters: Seq<u128>,
    /// The next ticket to be given out.
    pub next_ticket: nat,
    /// Whether the controller has been closed.
    pub closed: bool,
}

impl AdmissionState {
    /// A controller that nobody has used yet.
    pub open spec fn fresh(limit: nat) -> AdmissionState {
        AdmissionState {
            limit,
            holders: Seq::empty(),
            waiters: Seq::empty(),
            next_ticket: 0,
            closed: false,
        }
    }

    /// The controller's invariant: never more holders than the limit, nobody
    /// waits while a permit is free, nobody waits at a closed controller, and
    /// every ticket in use was given out once.
    pub open spec fn wf(self) -> bool {
        &&& self.holders.len() <= self.limit
        &&& self.waiters.len() > 0 ==> self.holders.len() == self.limit
        &&& self.closed ==> self.waiters.len() == 0
        &&& self.next_ticket <= u128::MAX
        &&& self.holders.no_duplicates()
        &&& self.waiters.no_duplicates()
        &&& forall|t: u128| #[trigger] self.holders.contains(t) ==> t < self.next_ticket
        &&& forall|t: u128| #[trigger] self.waiters.contains(t) ==> t < self.next_ticket && !self.holders.contains(t)
    }

    /// Whether a request gets a ticket.
    pub open spec fn accepts(self) -> bool {
        !self.closed && self.next_ticket < u128::MAX
    }

    /// Permits that nobody holds.
    pub open spec fn available(self) -> int {
        self.limit - self.holders.len()
    }

    /// The state after a request.
    pub open spec fn request(self) -> AdmissionState {
        if !self.accepts() {
            self
        } else if self.holders.len() < self.limit {
            AdmissionState {
                holders: self.holders.push(self.next_ticket as u128),
                next_ticket: self.next_ticket + 1,
                ..self
            }
        } else {
            AdmissionState {
                waiters: self.waiters.push(self.next_ticket as u128),
                next_ticket: self.next_ticket + 1,
                ..self
            }
        }
    }

    /// What a request is answered with.
    pub open spec fn request_outcome(self) -> Admission {
        if !self.accepts() {
            Admission::Refused
        } else if self.holders.len() < self.limit {
            Admission::Granted(self.next_ticket as u128)
        } else {
            Admission::Queued(self.next_ticket as u128)
        }
    }

    /// The state after `ticket` is given up. A holder's permit goes to the
    /// ticket that has waited longest, if any waits; a waiting ticket leaves
    /// the line; any other ticket changes nothing.
    pub open spec fn release(self, ticket: u128) -> AdmissionState {
        if self.holders.contains(ticket) {
            let rest = self.holders.remove(self.holders.index_of(ticket));
            if self.waiters.len() > 0 {
                AdmissionState {
                    holders: rest.push(self.waiters[0]),
                    waiters: self.waiters.drop_first(),
                    ..self
                }
            } else {
                AdmissionState { holders: rest, ..self }
            }
        } else if self.waiters.contains(ticket) {
            AdmissionState { waiters: self.waiters.remove(self.waiters.index_of(ticket)), ..self }
        } else {
            self
        }
    }

    /// The ticket that gets the permit which giving up `ticket` frees.
    pub open spec fn release_grant(self, ticket: u128) -> Option<u128> {
        if self.holders.contains(ticket) && self.waiters.len() > 0 {
            Some(self.waiters[0])
        } else {
            None
        }
    }

    /// The state after closing: no further ticket is given out and nobody
    /// waits any more. Holders keep their permits until they give them up.
    pub open spec fn close(self) -> AdmissionState {
        AdmissionState { closed: true, waiters: Seq::empty(), ..self }
    }

    /// The state after `n` requests in a row.
    pub open spec fn after_requests(self, n: nat) -> AdmissionState
        decreases n,
    {
        if n == 0 {
            self
        } else {
            self.after_requests((n - 1) as nat).request()
        }
    }

    /// The state after the given tickets are given up, one after the other.
    pub open spec fn release_all(self, tickets: Seq<u128>) -> AdmissionState
        decreases tickets.len(),
    {
        if tickets.len() == 0 {
            self
        } else {
            self.release_all(tickets.drop_last()).release(tickets.last())
        }
    }
}

/// What is left of a sequence without duplicates when one item is removed.
proof fn lemma_remove_item(s: Seq<u128>, i: int)
    requires
        s.no_duplicates(),
        0 <= i < s.len(),
    ensures
        s.index_of(s[i]) == i,
        s.remove(i).len() == s.len() - 1,
        s.remove(i).no_duplicates(),
        forall|t: u128| #[trigger] s.remove(i).contains(t) <==> s.contains(t) && t != s[i],
{
    let r = s.remove(i);
    assert(s.contains(s[i]));
    assert forall|t: u128| #[trigger] r.contains(t) <==> s.contains(t) && t != s[i] by {
        if r.contains(t) {
            let j = choose|j: int| 0 <= j < r.len() && r[j] == t;
            if j < i {
                assert(s[j] == t);
            } else {
                assert(s[j + 1] == t);
            }
        }
        if s.contains(t) && t != s[i] {
            let j = choose|j: int| 0 <= j < s.len() && s[j] == t;
            if j < i {
                assert(r[j] == t);
            } else {
                assert(r[j - 1] == t);
            }
        }
    }
    assert forall|a: int, b: int| 0 <= a < r.len() && 0 <= b < r.len() && a != b implies r[a]
        != r[b] by {
        let a2 = if a < i { a } else { a + 1 };
        let b2 = if b < i { b } else { b + 1 };
        assert(r[a] == s[a2] && r[b] == s[b2]);
    }
}

/// What a sequence without duplicates holds once a new item is appended.
proof fn lemma_push_item(s: Seq<u128>, x: u128)
    requires
        s.no_duplicates(),
        !s.contains(x),
    ensures
        s.push(x).no_duplicates(),
        forall|t: u128| #[trigger] s.push(x).contains(t) <==> s.contains(t) || t == x,
{
    let r = s.push(x);
    assert forall|t: u128| #[trigger] r.contains(t) <==> s.contains(t) || t == x by {
        if s.contains(t) {
            let j = choose|j: int| 0 <= j < s.len() && s[j] == t;
            assert(r[j] == t);
        }
        if t == x {
            assert(r[s.len() as int] == t);
        }
    }
}

/// What is left of a line without duplicates when its head leaves.
proof fn lemma_drop_first(s: Seq<u128>)
    requires
        s.no_duplicates(),
        s.len() > 0,
    ensures
        s.drop_first() == s.remove(0),
        s.drop_first().no_duplicates(),
        forall|t: u128| #[trigger] s.drop_first().contains(t) <==> s.contains(t) && t != s[0],
{
    assert(s.drop_first() =~= s.remove(0));
    lemma_remove_item(s, 0);
}

impl AdmissionState {
    /// A request keeps the invariant, so the limit binds after it as before.
    pub proof fn lemma_request_keeps_invariant(self)
        requires
            self.wf(),
        ensures
            self.request().wf(),
            self.request().limit == self.limit,
            self.request_outcome() is Granted <==> self.accepts() && self.holders.len()
                < self.limit,
            self.request_outcome() matches Admission::Granted(t) ==> self.request().holders.contains(
                t,
            ) && !self.holders.contains(t),
            self.request_outcome() matches Admission::Queued(t) ==> self.request().waiters.last()
                == t && self.request().holders == self.holders,
    {
        if self.accepts() {
            let t = self.next_ticket as u128;
            if self.holders.contains(t) {
            }
            if self.waiters.contains(t) {
            }
            if self.holders.len() < self.limit {
                lemma_push_item(self.holders, t);
                assert(self.waiters.len() == 0);
                assert forall|x: u128| #[trigger]
                    self.request().waiters.contains(x) implies false by {}
            } else {
                lemma_push_item(self.waiters, t);
            }
        }
    }

    /// Giving up a ticket keeps the invariant. A holder's permit passes to the
    /// ticket that has waited longest, first in, first out; without a waiter
    /// it becomes free again.
    pub proof fn lemma_release_keeps_invariant(self, ticket: u128)
        requires
            self.wf(),
        ensures
            self.release(ticket).wf(),
            self.release(ticket).limit == self.limit,
            !self.release(ticket).holders.contains(ticket),
            !self.release(ticket).waiters.contains(ticket),
            self.holders.contains(ticket) && self.waiters.len() > 0 ==> {
                &&& self.release(ticket).holders.contains(self.waiters[0])
                &&& self.release(ticket).waiters == self.waiters.drop_first()
                &&& self.release(ticket).holders.len() == self.holders.len()
            },
            self.holders.contains(ticket) && self.waiters.len() == 0 ==> {
                &&& self.release(ticket).holders.len() == self.holders.len() - 1
                &&& self.release(ticket).available() == self.available() + 1
            },
            forall|t: u128|
                t != ticket && #[trigger] self.holders.contains(t) ==> self.release(
                    ticket,
                ).holders.contains(t),
    {
        if self.holders.contains(ticket) {
            let i = self.holders.index_of(ticket);
            lemma_remove_item(self.holders, i);
            let rest = self.holders.remove(i);
            if self.waiters.len() > 0 {
                let head = self.waiters[0];
                assert(self.waiters.contains(head));
                lemma_drop_first(self.waiters);
                lemma_push_item(rest, head);
            }
        } else if self.waiters.contains(ticket) {
            let i = self.waiters.index_of(ticket);
            lemma_remove_item(self.waiters, i);
        }
    }

    /// From a controller that nobody has used, `n` requests fill the permits
    /// in the order of asking and queue the rest in that order.
    pub proof fn lemma_requests_fill_then_queue(limit: nat, n: nat)
        requires
            n < u128::MAX,
        ensures
            ({
                let s = AdmissionState::fresh(limit).after_requests(n);
                let admitted = if n <= limit { n } else { limit };
                &&& s.wf()
                &&& s.limit == limit
                &&& !s.closed
                &&& s.next_ticket == n
                &&& s.holders == Seq::new(admitted, |i: int| i as u128)
                &&& s.waiters == Seq::new((n - admitted) as nat, |i: int| (limit + i) as u128)
            }),
        decreases n,
    {
        let s = AdmissionState::fresh(limit).after_requests(n);
        let admitted = if n <= limit { n } else { limit };
        if n == 0 {
            assert(s.holders =~= Seq::new(admitted, |i: int| i as u128));
            assert(s.waiters =~= Seq::new((n - admitted) as nat, |i: int| (limit + i) as u128));
        } else {
            let p = AdmissionState::fresh(limit).after_requests((n - 1) as nat);
            Self::lemma_requests_fill_then_queue(limit, (n - 1) as nat);
            p.lemma_request_keeps_invariant();
            assert(s == p.request());
            assert(s.holders =~= Seq::new(admitted, |i: int| i as u128));
            assert(s.waiters =~= Seq::new((n - admitted) as nat, |i: int| (limit + i) as u128));
        }
    }

    /// Whatever the limit, of `limit + 1` queries that ask one after the other
    /// the first `limit` run and the last one waits: never more run than the
    /// limit allows.
    pub proof fn lemma_one_more_than_the_limit_waits(limit: usize)
        ensures
            ({
                let full = AdmissionState::fresh(limit as nat).after_requests(limit as nat);
                let s = AdmissionState::fresh(limit as nat).after_requests((limit + 1) as nat);
                &&& full.holders.len() == limit
                &&& full.waiters.len() == 0
                &&& full.request_outcome() == Admission::Queued(limit as u128)
                &&& s == full.request()
                &&& s.wf()
                &&& s.holders.len() == limit
                &&& s.waiters == seq![limit as u128]
                &&& forall|t: u128| t < limit ==> s.holders.contains(t)
            }),
    {
        let full = AdmissionState::fresh(limit as nat).after_requests(limit as nat);
        let s = AdmissionState::fresh(limit as nat).after_requests((limit + 1) as nat);
        Self::lemma_requests_fill_then_queue(limit as nat, limit as nat);
        Self::lemma_requests_fill_then_queue(limit as nat, (limit + 1) as nat);
        assert(s.waiters =~= seq![limit as u128]);
        assert forall|t: u128| t < limit implies s.holders.contains(t) by {
            assert(s.holders[t as int] == t);
        }
    }

    /// With `limit` queries running and one waiting, when any running query
    /// gives up its permit the waiting one runs in its place, and the limit
    /// is filled as before.
    pub proof fn lemma_concurrency_bound(limit: usize, leaving: u128)
        requires
            leaving < limit,
        ensures
            ({
                let s = AdmissionState::fresh(limit as nat).after_requests((limit + 1) as nat);
                &&& s.holders.len() == limit
                &&& s.waiters == seq![limit as u128]
                &&& s.holders.contains(leaving)
                &&& s.release_grant(leaving) == Some(limit as u128)
                &&& s.release(leaving).holders.len() == limit
                &&& s.release(leaving).holders.contains(limit as u128)
                &&& !s.release(leaving).holders.contains(leaving)
                &&& s.release(leaving).waiters.len() == 0
            }),
    {
        let s = AdmissionState::fresh(limit as nat).after_requests((limit + 1) as nat);
        Self::lemma_one_more_than_the_limit_waits(limit);
        s.lemma_release_keeps_invariant(leaving);
    }

    /// A query that asks and then gives its ticket up, whether it ran or
    /// still waited, leaves holders and waiters as they were before it asked.
    pub proof fn lemma_cancelled_request_leaves_no_trace(self)
        requires
            self.wf(),
        ensures
            match self.request_outcome() {
                Admission::Granted(t) | Admission::Queued(t) => {
                    &&& self.request().release(t).holders == self.holders
                    &&& self.request().release(t).waiters == self.waiters
                },
                Admission::Refused => self.request() == self,
            },
    {
        if self.accepts() {
            let t = self.next_ticket as u128;
            let s = self.request();
            self.lemma_request_keeps_invariant();
            if self.holders.contains(t) {
            }
            if self.waiters.contains(t) {
            }
            if self.holders.len() < self.limit {
                let i = self.holders.len() as int;
                assert(s.holders[i] == t);
                lemma_remove_item(s.holders, i);
                assert(s.holders.remove(i) =~= self.holders);
                assert(self.waiters.len() == 0);
            } else {
                let i = self.waiters.len() as int;
                assert(s.waiters[i] == t);
                lemma_remove_item(s.waiters, i);
                assert(s.waiters.remove(i) =~= self.waiters);
            }
        }
    }

    /// When nobody waits and holders give up their tickets, each permit
    /// comes back: the holders shrink by the number of tickets given up.
    pub proof fn lemma_released_permits_come_back(self, tickets: Seq<u128>)
        requires
            self.wf(),
            self.waiters.len() == 0,
            tickets.no_duplicates(),
            forall|i: int| 0 <= i < tickets.len() ==> self.holders.contains(#[trigger] tickets[i]),
        ensures
            self.release_all(tickets).wf(),
            self.release_all(tickets).waiters.len() == 0,
            self.release_all(tickets).limit == self.limit,
            self.release_all(tickets).closed == self.closed,
            self.release_all(tickets).next_ticket == self.next_ticket,
            self.release_all(tickets).holders.len() == self.holders.len() - tickets.len(),
            forall|t: u128| #[trigger]
                self.release_all(tickets).holders.contains(t) <==> self.holders.contains(t)
                    && !tickets.contains(t),
        decreases tickets.len(),
    {
        if tickets.len() > 0 {
            let front = tickets.drop_last();
            let last = tickets.last();
            assert(tickets[tickets.len() - 1] == last);
            assert forall|i: int| 0 <= i < front.len() implies self.holders.contains(
                #[trigger] front[i],
            ) by {
                assert(front[i] == tickets[i]);
            }
            self.lemma_released_permits_come_back(front);
            let mid = self.release_all(front);
            assert(!front.contains(last)) by {
                if front.contains(last) {
                    let j = choose|j: int| 0 <= j < front.len() && front[j] == last;
                    assert(tickets[j] == tickets[tickets.len() - 1]);
                }
            }
            assert(mid.holders.contains(last));
            mid.lemma_release_keeps_invariant(last);
            let i = mid.holders.index_of(last);
            lemma_remove_item(mid.holders, i);
            assert forall|t: u128| #[trigger]
                self.release_all(tickets).holders.contains(t) <==> self.holders.contains(t)
                    && !tickets.contains(t) by {
                if tickets.contains(t) {
                    let j = choose|j: int| 0 <= j < tickets.len() && tickets[j] == t;
                    if j < front.len() {
                        assert(front[j] == t);
                    }
                }
                if front.contains(t) {
                    let j = choose|j: int| 0 <= j < front.len() && front[j] == t;
                    assert(tickets[j] == t);
                }
            }
        }
    }

    /// With a limit of at least one, after as many queries as there are
    /// permits have run and all been cancelled, every permit is free and the
    /// next query is admitted at once.
    pub proof fn lemma_cancelled_queries_leak_no_permit(limit: usize)
        requires
            0 < limit,
        ensures
            ({
                let running = AdmissionState::fresh(limit as nat).after_requests(limit as nat);
                let tickets = Seq::new(limit as nat, |i: int| i as u128);
                let drained = running.release_all(tickets);
                &&& running.holders == tickets
                &&& drained.holders.len() == 0
                &&& drained.waiters.len() == 0
                &&& drained.available() == limit
                &&& drained.request_outcome() == Admission::Granted(limit as u128)
            }),
    {
        let running = AdmissionState::fresh(limit as nat).after_requests(limit as nat);
        let tickets = Seq::new(limit as nat, |i: int| i as u128);
        Self::lemma_requests_fill_then_queue(limit as nat, limit as nat);
        assert(running.waiters.len() == 0);
        assert forall|i: int| 0 <= i < tickets.len() implies running.holders.contains(
            #[trigger] tickets[i],
        ) by {
            assert(running.holders[i] == tickets[i]);
        }
        running.lemma_released_permits_come_back(tickets);
    }
}

/// A counting semaphore with a first-in, first-out line of waiting tickets.
#[derive(Debug)]
pub struct AdmissionController {
    limit: usize,
    holders: Vec<u128>,
    waiters: Vec<u128>,
    next_ticket: u128,
    closed: bool,
}

impl View for AdmissionController {
    type V = AdmissionState;

    closed spec fn view(&self) -> AdmissionState {
        AdmissionState {
            limit: self.limit as nat,
            holders: self.holders@,
            waiters: self.waiters@,
            next_ticket: self.next_ticket as nat,
            closed: self.closed,
        }
    }
}

/// Where `ticket` stands in `tickets`.
fn position(tickets: &Vec<u128>, ticket: u128) -> (r: Option<usize>)
    ensures
        match r {
            Some(i) => i < tickets.len() && tickets[i as int] == ticket,
            None => !tickets@.contains(ticket),
        },
{
    let mut i: usize = 0;
    while i < tickets.len()
        invariant
            i <= tickets.len(),
            forall|j: int| 0 <= j < i ==> tickets[j] != ticket,
        decreases tickets.len() - i,
    {
        if tickets[i] == ticket {
            return Some(i);
        }
        i += 1;
    }
    None
}

impl AdmissionController {
    /// Every value of this type keeps the invariant of its view.
    #[verifier::type_invariant]
    pub open spec fn inv(self) -> bool {
        self@.wf()
    }

    /// A controller that lets `limit` tickets hold a permit at once.
    pub fn new(limit: usize) -> (r: AdmissionController)
        ensures
            r@ == AdmissionState::fresh(limit as nat),
    {
        AdmissionController {
            limit,
            holders: Vec::new(),
            waiters: Vec::new(),
            next_ticket: 0,
            closed: false,
        }
    }

    /// Asks for admission. The new ticket gets a permit if one is free, and
    /// else joins the end of the line.
    pub fn request(&mut self) -> (r: Admission)
        ensures
            final(self)@ == old(self)@.request(),
            r == old(self)@.request_outcome(),
            old(self)@.wf(),
            final(self)@.wf(),
    {
        proof {
            use_type_invariant(&*self);
            self@.lemma_request_keeps_invariant();
        }
        if self.closed || self.next_ticket == u128::MAX {
            return Admission::Refused;
        }
        let mut taken = AdmissionController::new(0);
        std::mem::swap(self, &mut taken);
        let AdmissionController { limit, mut holders, mut waiters, next_ticket, closed } = taken;
        let ticket = next_ticket;
        let r = if holders.len() < limit {
            holders.push(ticket);
            Admission::Granted(ticket)
        } else {
            waiters.push(ticket);
            Admission::Queued(ticket)
        };
        *self = AdmissionController { limit, holders, waiters, next_ticket: ticket + 1, closed };
        r
    }

    /// Gives `ticket` up, whether it holds a permit or still waits. Returns the
    /// ticket that now holds the permit which this freed, if one waited.
    pub fn release(&mut self, ticket: u128) -> (r: Option<u128>)
        ensures
            final(self)@ == old(self)@.release(ticket),
            r == old(self)@.release_grant(ticket),
            old(self)@.wf(),
            final(self)@.wf(),
    {
        proof {
            use_type_invariant(&*self);
            self@.lemma_release_keeps_invariant(ticket);
        }
        let mut taken = AdmissionController::new(0);
        std::mem::swap(self, &mut taken);
        let AdmissionController { limit, mut holders, mut waiters, next_ticket, closed } = taken;
        let ghost before = AdmissionState {
            limit: limit as nat,
            holders: holders@,
            waiters: waiters@,
            next_ticket: next_ticket as nat,
            closed,
        };
        let mut granted: Option<u128> = None;
        match position(&holders, ticket) {
            Some(i) => {
                proof {
                    lemma_remove_item(holders@, i as int);
                }
                holders.remove(i);
                if waiters.len() > 0 {
                    proof {
                        lemma_drop_first(waiters@);
                    }
                    let next = waiters.remove(0);
                    holders.push(next);
                    granted = Some(next);
                }
            },
            None => {
                match position(&waiters, ticket) {
                    Some(j) => {
                        proof {
                            lemma_remove_item(waiters@, j as int);
                        }
                        waiters.remove(j);
                    },
                    None => {},
                }
            },
        }
        assert(holders@ == before.release(ticket).holders);
        assert(waiters@ == before.release(ticket).waiters);
        *self = AdmissionController { limit, holders, waiters, next_ticket, closed };
        granted
    }

    /// Closes the controller: it gives out no further ticket. Returns the
    /// tickets that waited, which will never get a permit now.
    pub fn close(&mut self) -> (r: Vec<u128>)
        ensures
            final(self)@ == old(self)@.close(),
            r@ == old(self)@.waiters,
            final(self)@.wf(),
    {
        proof {
            use_type_invariant(&*self);
        }
        let mut taken = AdmissionController::new(0);
        std::mem::swap(self, &mut taken);
        let AdmissionController { limit, holders, waiters, next_ticket, closed } = taken;
        *self = AdmissionController {
            limit,
            holders,
            waiters: Vec::new(),
            next_ticket,
            closed: true,
        };
        waiters
    }

    /// Whether `ticket` holds a permit.
    pub fn holds(&self, ticket: u128) -> (r: bool)
        ensures
            r == self@.holders.contains(ticket),
    {
        position(&self.holders, ticket).is_some()
    }

    /// Whether `ticket` waits in line.
    pub fn is_waiting(&self, ticket: u128) -> (r: bool)
        ensures
            r == self@.waiters.contains(ticket),
    {
        position(&self.waiters, ticket).is_some()
    }

    /// How many tickets may hold a permit at once.
    pub fn limit(&self) -> (r: usize)
        ensures
            r == self@.limit,
    {
        self.limit
    }

    /// How many tickets hold a permit; never more than the limit.
    pub fn active_permits(&self) -> (r: usize)
        ensures
            r == self@.holders.len(),
            r <= self@.limit,
            self@.wf(),
    {
        proof {
            use_type_invariant(self);
        }
        self.holders.len()
    }

    /// How many tickets wait in line.
    pub fn waiting(&self) -> (r: usize)
        ensures
            r == self@.waiters.len(),
    {
        self.waiters.len()
    }

    /// How many permits are free.
    pub fn available_permits(&self) -> (r: usize)
        ensures
            r == self@.available(),
    {
        proof {
            use_type_invariant(self);
        }
        self.limit - self.holders.len()
    }

    /// Whether the controller has been closed.
    pub fn is_closed(&self) -> (r: bool)
        ensures
            r == self@.closed,
    {
        self.closed
    }
}

} // verus!
