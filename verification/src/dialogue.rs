//! Request and reply exchange between a decision procedure and its surroundings.
//!
//! A decision procedure never performs an outside operation itself. It asks for
//! one through a [`Dialogue`] and either finds the recorded reply or has to stop
//! and wait for it. The surrounding program performs the pending request, records
//! the reply and runs the procedure again from the start: the procedure asks the
//! same requests in the same order, finds their replies, and gets one step further.

use vstd::prelude::*;

verus! {

/// What has been asked so far, and every reply recorded so far: `replies[i]`
/// answers `asked[i]`.
#[verifier::ext_equal]
pub struct Transcript<Q, A> {
    pub asked: Seq<Q>,
    pub replies: Seq<A>,
}

impl<Q, A> Transcript<Q, A> {
    /// Every request asked so far has its reply.
    pub open spec fn live(self) -> bool {
        self.asked.len() <= self.replies.len()
    }

    /// Asks `q`, unless an earlier request still waits for its reply.
    pub open spec fn ask(self, q: Q) -> Self {
        if self.live() {
            Transcript { asked: self.asked.push(q), replies: self.replies }
        } else {
            self
        }
    }

    /// The reply to the last request, or `nothing` while it is still awaited.
    pub open spec fn reply(self, nothing: A) -> A {
        if self.live() {
            self.replies[self.asked.len() - 1]
        } else {
            nothing
        }
    }

    /// The requests that `later` asked beyond `self`.
    pub open spec fn new_requests(self, later: Self) -> Seq<Q> {
        later.asked.skip(self.asked.len() as int)
    }

    /// `later` went on from `self`: same replies, and more or equally many requests.
    pub open spec fn leads_to(self, later: Self) -> bool {
        &&& later.replies == self.replies
        &&& self.asked.is_prefix_of(later.asked)
    }

    /// `fuller` is the same exchange with further replies at hand: it has asked the
    /// same, and goes on beyond `self` only where `self` waits.
    #[verifier::opaque]
    pub open spec fn replays_in(self, fuller: Self) -> bool {
        &&& self.replies.is_prefix_of(fuller.replies)
        &&& if self.live() {
            self.asked == fuller.asked
        } else {
            &&& self.asked.len() == self.replies.len() + 1
            &&& self.asked.is_prefix_of(fuller.asked)
        }
    }
}

/// Where a run that began at `self` has got to: it went on by asking, and a run
/// that had to wait from the start has asked nothing.
pub open spec fn goes_on<Q, A>(t: Transcript<Q, A>, later: Transcript<Q, A>) -> bool {
    &&& t.leads_to(later)
    &&& !t.live() ==> later == t
}

/// Two runs of one procedure, the second with further replies at hand, agree: they
/// ask the same as far as the first gets, and where the first comes to its end, the
/// second comes to the same end.
pub open spec fn in_step<Q, A, V>(
    run: (Transcript<Q, A>, V),
    fuller: (Transcript<Q, A>, V),
) -> bool {
    &&& run.0.replays_in(fuller.0)
    &&& run.0.live() ==> run.1 == fuller.1
}

pub broadcast proof fn lemma_ask_goes_on<Q, A>(t: Transcript<Q, A>, q: Q)
    ensures
        goes_on(t, #[trigger] t.ask(q)),
{
}

pub broadcast proof fn lemma_stay_goes_on<Q, A>(t: Transcript<Q, A>)
    ensures
        #[trigger] goes_on(t, t),
{
}

pub broadcast proof fn lemma_goes_on_and_on<Q, A>(
    a: Transcript<Q, A>,
    b: Transcript<Q, A>,
    c: Transcript<Q, A>,
)
    requires
        #[trigger] goes_on(a, b),
        #[trigger] goes_on(b, c),
    ensures
        goes_on(a, c),
{
}

/// Asking keeps two runs of the same exchange in step.
pub broadcast proof fn lemma_ask_in_step<Q, A>(
    t: Transcript<Q, A>,
    fuller: Transcript<Q, A>,
    q: Q,
)
    requires
        #[trigger] t.replays_in(fuller),
    ensures
        (#[trigger] t.ask(q)).replays_in(#[trigger] fuller.ask(q)),
        forall|nothing: A|
            t.ask(q).live() ==> #[trigger] t.ask(q).reply(nothing) == fuller.ask(q).reply(nothing),
{
    reveal(Transcript::replays_in);
    if t.live() {
        assert(t.asked.push(q).is_prefix_of(fuller.asked.push(q)));
        if t.ask(q).live() {
            assert(t.asked.push(q) =~= fuller.asked.push(q));
            assert(t.replies[t.asked.len() as int] == fuller.replies[t.asked.len() as int]);
        }
    } else if fuller.live() {
        assert(t.asked.is_prefix_of(fuller.asked.push(q)));
    }
}

/// A run that waits is not put out of step by what the fuller one goes on to ask.
pub broadcast proof fn lemma_waits_in_step<Q, A>(
    t: Transcript<Q, A>,
    fuller: Transcript<Q, A>,
    later: Transcript<Q, A>,
)
    requires
        #[trigger] t.replays_in(fuller),
        #[trigger] goes_on(fuller, later),
        !t.live(),
    ensures
        t.replays_in(later),
{
    reveal(Transcript::replays_in);
    assert(t.asked.is_prefix_of(later.asked)) by {
        assert(forall|i: int| 0 <= i < t.asked.len() ==> t.asked[i] == later.asked[i]);
    }
}

/// A live run and the fuller one have asked the same.
pub broadcast proof fn lemma_live_in_step<Q, A>(t: Transcript<Q, A>, fuller: Transcript<Q, A>)
    requires
        #[trigger] t.replays_in(fuller),
        t.live(),
    ensures
        fuller.live(),
{
    reveal(Transcript::replays_in);
}

pub broadcast group group_in_step {
    lemma_ask_goes_on,
    lemma_stay_goes_on,
    lemma_goes_on_and_on,
    lemma_ask_in_step,
    lemma_waits_in_step,
    lemma_live_in_step,
}

/// `later` went on from `t`, and every request on the way satisfies `p`.
pub open spec fn asks_only<Q, A>(
    t: Transcript<Q, A>,
    later: Transcript<Q, A>,
    p: spec_fn(Q) -> bool,
) -> bool {
    &&& t.leads_to(later)
    &&& forall|i: int| t.asked.len() <= i < later.asked.len() ==> p(#[trigger] later.asked[i])
}

pub proof fn lemma_asks_one<Q, A>(t: Transcript<Q, A>, q: Q, p: spec_fn(Q) -> bool)
    requires
        p(q),
    ensures
        asks_only(t, t.ask(q), p),
{
}

pub proof fn lemma_asks_on<Q, A>(
    a: Transcript<Q, A>,
    b: Transcript<Q, A>,
    c: Transcript<Q, A>,
    p: spec_fn(Q) -> bool,
)
    requires
        asks_only(a, b, p),
        asks_only(b, c, p),
    ensures
        asks_only(a, c, p),
{
    assert forall|i: int| a.asked.len() <= i < c.asked.len() implies p(#[trigger] c.asked[i]) by {
        if i < b.asked.len() {
            assert(c.asked[i] == b.asked[i]);
        }
    }
}

/// Between `t` and `later` the request `q` was asked, with a reply that is `good`.
pub open spec fn was_asked<Q, A>(
    t: Transcript<Q, A>,
    later: Transcript<Q, A>,
    q: Q,
    good: spec_fn(A) -> bool,
) -> bool {
    exists|k: int|
        t.asked.len() <= k < later.asked.len() && k < later.replies.len()
            && #[trigger] later.asked[k] == q && good(later.replies[k])
}

pub broadcast proof fn lemma_asked_stays<Q, A>(
    a: Transcript<Q, A>,
    b: Transcript<Q, A>,
    c: Transcript<Q, A>,
    q: Q,
    good: spec_fn(A) -> bool,
)
    requires
        #[trigger] was_asked(a, b, q, good),
        #[trigger] goes_on(b, c),
    ensures
        was_asked(a, c, q, good),
{
    let k = choose|k: int|
        a.asked.len() <= k < b.asked.len() && k < b.replies.len() && #[trigger] b.asked[k] == q
            && good(b.replies[k]);
    assert(c.asked[k] == q);
}

pub broadcast proof fn lemma_asked_earlier<Q, A>(
    a: Transcript<Q, A>,
    b: Transcript<Q, A>,
    c: Transcript<Q, A>,
    q: Q,
    good: spec_fn(A) -> bool,
)
    requires
        #[trigger] goes_on(a, b),
        #[trigger] was_asked(b, c, q, good),
    ensures
        was_asked(a, c, q, good),
{
    let k = choose|k: int|
        b.asked.len() <= k < c.asked.len() && k < c.replies.len() && #[trigger] c.asked[k] == q
            && good(c.replies[k]);
    assert(c.asked[k] == q);
}

pub proof fn lemma_asked_now<Q, A>(t: Transcript<Q, A>, q: Q, good: spec_fn(A) -> bool)
    requires
        t.ask(q).live(),
        good(t.replies[t.asked.len() as int]),
    ensures
        was_asked(t, t.ask(q), q, good),
{
    assert(t.ask(q).asked[t.asked.len() as int] == q);
}

/// The executable side of a [`Transcript`].
pub struct Dialogue<Q, A> {
    asked: Vec<Q>,
    replies: Vec<A>,
}

impl<Q: View, A: View> View for Dialogue<Q, A> {
    type V = Transcript<Q::V, A::V>;

    closed spec fn view(&self) -> Transcript<Q::V, A::V> {
        Transcript {
            asked: self.asked@.map_values(|q: Q| q@),
            replies: self.replies@.map_values(|a: A| a@),
        }
    }
}

impl<Q: View, A: View> Dialogue<Q, A> {
    /// A dialogue in which nothing was asked or answered yet.
    pub fn new() -> (d: Self)
        ensures
            d@.asked == Seq::<Q::V>::empty(),
            d@.replies == Seq::<A::V>::empty(),
    {
        let d = Dialogue { asked: Vec::new(), replies: Vec::new() };
        assert(d@.asked =~= Seq::<Q::V>::empty());
        assert(d@.replies =~= Seq::<A::V>::empty());
        d
    }

    /// Whether every request asked so far has its reply.
    pub fn is_live(&self) -> (r: bool)
        ensures
            r == self@.live(),
    {
        self.asked.len() <= self.replies.len()
    }

    /// Number of requests asked so far.
    pub fn asked_count(&self) -> (n: usize)
        ensures
            n == self@.asked.len(),
    {
        self.asked.len()
    }

    /// The request with number `i`, in the order of asking.
    pub fn request(&self, i: usize) -> (q: &Q)
        requires
            i < self@.asked.len(),
        ensures
            q@ == self@.asked[i as int],
    {
        &self.asked[i]
    }

    /// The request that waits for its reply, if one does.
    pub fn pending(&self) -> (q: Option<&Q>)
        ensures
            q is Some <==> !self@.live(),
            q is Some ==> q->0@ == self@.asked.last(),
    {
        if self.asked.len() > self.replies.len() {
            Some(&self.asked[self.asked.len() - 1])
        } else {
            None
        }
    }

    /// Records the reply to the next unanswered request.
    pub fn record(&mut self, reply: A)
        ensures
            final(self)@.asked == old(self)@.asked,
            final(self)@.replies == old(self)@.replies.push(reply@),
    {
        self.replies.push(reply);
        assert(self@.replies =~= old(self)@.replies.push(reply@));
    }

    /// Forgets what was asked and keeps the replies, for the next run.
    pub fn rewind(&mut self)
        ensures
            final(self)@.asked == Seq::<Q::V>::empty(),
            final(self)@.replies == old(self)@.replies,
    {
        self.asked = Vec::new();
        assert(self@.asked =~= Seq::<Q::V>::empty());
    }

    /// Asks `q` and gives the number of its reply, or `None` where a reply is
    /// still awaited.
    pub fn ask(&mut self, q: Q) -> (at: Option<usize>)
        ensures
            final(self)@ == old(self)@.ask(q@),
            at is Some <==> final(self)@.live(),
            at is Some ==> at->0 == final(self)@.asked.len() - 1 && at->0
                < final(self)@.replies.len(),
    {
        if self.asked.len() > self.replies.len() {
            return None;
        }
        let at: usize = self.asked.len();
        self.asked.push(q);
        assert(self@.asked =~= old(self)@.asked.push(q@));
        assert(self@ =~= old(self)@.ask(q@));
        if at < self.replies.len() {
            Some(at)
        } else {
            None
        }
    }

    /// The reply with number `at`.
    pub fn reply(&self, at: usize) -> (a: &A)
        requires
            at < self@.replies.len(),
        ensures
            a@ == self@.replies[at as int],
    {
        &self.replies[at]
    }
}

} // verus!
