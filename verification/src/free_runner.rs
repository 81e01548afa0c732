//! The event/effect dispatch runtime.
//!
//! A [`Runner`] owns a FIFO dispatch queue of [`Event`] envelopes. Its worker
//! takes one envelope at a time and hands it to a handler function
//! `f: Event<Ev> -> Option<Effect<Eff, T>>`. A verdict of
//! `Some(Effect::Return(t))` stops the loop with completion value `t`; a
//! verdict of `Some(Effect::Effect(eff))` is translated by an interpreter
//! function `g: Eff -> Option<Ev>`, and a follow-up event, if any, is stamped
//! with a fresh timestamp and pushed to the back of the same queue, where it
//! interleaves with externally sent events. An optional heartbeat generator
//! pushes [`Event::Heartbeat`] envelopes into the queue at a fixed period
//! until the queue closes.

use vstd::prelude::*;

verus! {

/// The envelope carried by the dispatch queue: either a periodic heartbeat
/// marker or a caller-supplied payload. The timestamp (unix seconds) is
/// assigned at the moment of enqueue, not by the creator of the payload.
#[derive(Debug)]
pub enum Event<E> {
    Heartbeat { time: i64 },
    Event { time: i64, event: E },
}

/// The handler's verdict for one envelope: either the loop's final result or
/// a request to perform an interpreted side effect.
#[derive(Debug)]
pub enum Effect<E, T> {
    Return(T),
    Effect(E),
}

/// What the worker does after handling one envelope: keep going, push a
/// follow-up envelope to the back of the queue, or stop with the completion
/// value the handler returned.
pub enum Step<Ev, T> {
    Continue,
    Feedback(Event<Ev>),
    Stop(T),
}

/// How a worker step follows from the handler's verdict `fr`: a `Return`
/// stops the loop, an `Effect` is translated by the interpreter `g` into an
/// optional follow-up envelope stamped `now`, and no verdict means no action.
pub open spec fn step_follows<Ev, Eff, T, G: Fn(Eff) -> Option<Ev>>(
    fr: Option<Effect<Eff, T>>,
    g: G,
    now: i64,
    s: Step<Ev, T>,
) -> bool {
    match fr {
        None => s == Step::<Ev, T>::Continue,
        Some(Effect::Return(t)) => s == Step::<Ev, T>::Stop(t),
        Some(Effect::Effect(eff)) => exists|gr: Option<Ev>|
            #[trigger] call_ensures(g, (eff,), gr) && match gr {
                None => s == Step::<Ev, T>::Continue,
                Some(v) => s == Step::<Ev, T>::Feedback(Event::Event { time: now, event: v }),
            },
    }
}

/// The worker-loop transition relation: step `s` is a possible reaction of a
/// worker with handler `f` and interpreter `g` to envelope `ev` at time `now`.
pub open spec fn step_rel<Ev, Eff, T, F: Fn(Event<Ev>) -> Option<Effect<Eff, T>>, G: Fn(Eff) -> Option<Ev>>(
    f: F,
    g: G,
    ev: Event<Ev>,
    now: i64,
    s: Step<Ev, T>,
) -> bool {
    exists|fr: Option<Effect<Eff, T>>| #[trigger] call_ensures(f, (ev,), fr)
        && step_follows(fr, g, now, s)
}

/// One iteration of the worker loop, after the envelope `ev` has been pulled
/// off the queue: evaluate the handler, translate a requested effect through
/// the interpreter, and report what the loop does next. A follow-up envelope
/// carries the timestamp `now` at which it will be enqueued.
pub fn worker_step<Ev, Eff, T, F: Fn(Event<Ev>) -> Option<Effect<Eff, T>>, G: Fn(Eff) -> Option<Ev>>(
    f: &F,
    g: &G,
    ev: Event<Ev>,
    now: i64,
) -> (s: Step<Ev, T>)
    requires
        call_requires(*f, (ev,)),
        forall|eff: Eff| call_requires(*g, (eff,)),
    ensures
        step_rel(*f, *g, ev, now, s),
{
    let fr = f(ev);
    match fr {
        Some(Effect::Return(t)) => Step::Stop(t),
        Some(Effect::Effect(eff)) => {
            let gr = g(eff);
            match gr {
                Some(v) => Step::Feedback(Event::Event { time: now, event: v }),
                None => Step::Continue,
            }
        },
        None => Step::Continue,
    }
}

/// The failure a producer sees when it enqueues after the worker has
/// stopped: the consumer side of the dispatch queue is gone, and the
/// envelope that could not be enqueued comes back with the failure.
/// Producers treat it as a terminal signal, not as an error to retry.
#[derive(Debug, PartialEq)]
pub struct SendError<T>(pub T);

/// The failure of a second attempt to enable heartbeats on the same runner:
/// at most one heartbeat generator may exist, and a prior one is never
/// silently replaced.
#[derive(Clone, Copy, Debug, PartialEq, Eq, Structural)]
pub enum HeartbeatsError {
    AlreadyEnabled,
}

/// What one heartbeat-generator tick did: push a heartbeat envelope, or
/// observe the closed queue and exit cleanly. Queue closure is the
/// generator's only cancellation signal.
#[derive(Clone, Copy, Debug, PartialEq, Eq, Structural)]
pub enum TickOutcome {
    Sent,
    GeneratorExit,
}

/// How a drive of the runner ended: the handler returned a completion value,
/// the runner would wait forever (queue empty, still running, no heartbeat
/// generator to produce further events), or the fuel ran out first.
#[derive(Debug, PartialEq)]
pub enum RunOutcome<T> {
    Completed(T),
    Blocked,
    OutOfFuel,
}

/// How one worker step rewrites the runner's state: the envelope at the
/// front of the queue is consumed; a feedback envelope joins the back of the
/// queue; a `Stop` records the completion value.
pub open spec fn step_applied<Ev, T>(
    pre: Seq<Event<Ev>>,
    post: Seq<Event<Ev>>,
    done: Option<T>,
    s: Step<Ev, T>,
) -> bool {
    match s {
        Step::Continue => post == pre.remove(0) && done is None,
        Step::Feedback(e) => post == pre.remove(0).push(e) && done is None,
        Step::Stop(t) => post == pre.remove(0) && done == Some(t),
    }
}

/// One transition of the runner while the worker still runs: with envelopes
/// queued, a worker step on the front envelope; with the queue empty and
/// heartbeats enabled, a generator tick pushing one heartbeat envelope. With
/// the queue empty and no heartbeats, no transition exists: the worker waits
/// forever.
pub open spec fn run_step<Ev, Eff, T, F: Fn(Event<Ev>) -> Option<Effect<Eff, T>>, G: Fn(Eff) -> Option<Ev>>(
    f: F,
    g: G,
    hb: bool,
    q: Seq<Event<Ev>>,
    q2: Seq<Event<Ev>>,
    done2: Option<T>,
) -> bool {
    if q.len() > 0 {
        exists|s: Step<Ev, T>, t: i64|
            #[trigger] step_rel(f, g, q[0], t, s) && step_applied(q, q2, done2, s)
    } else {
        hb && done2 is None && exists|t: i64| q2 == q.push(Event::Heartbeat { time: t })
    }
}

/// The link between two consecutive states of a recorded run: the earlier
/// state has no completion yet, and one transition leads to the later one.
pub open spec fn run_link<Ev, Eff, T, F: Fn(Event<Ev>) -> Option<Effect<Eff, T>>, G: Fn(Eff) -> Option<Ev>>(
    f: F,
    g: G,
    hb: bool,
    trace: Seq<(Seq<Event<Ev>>, Option<T>)>,
    i: int,
) -> bool {
    trace[i].1 is None && run_step(f, g, hb, trace[i].0, trace[i + 1].0, trace[i + 1].1)
}

/// A run of the worker loop, recorded as the sequence of runner states —
/// queue contents and completion — that it passes through: each state
/// follows from the one before it by one [`run_step`] transition, taken
/// while the completion was still `None`.
pub open spec fn is_run<Ev, Eff, T, F: Fn(Event<Ev>) -> Option<Effect<Eff, T>>, G: Fn(Eff) -> Option<Ev>>(
    f: F,
    g: G,
    hb: bool,
    trace: Seq<(Seq<Event<Ev>>, Option<T>)>,
) -> bool {
    forall|i: int| 0 <= i && i + 1 < trace.len() ==> #[trigger] run_link(f, g, hb, trace, i)
}

/// Relies on `time::OffsetDateTime::now_utc` and `unix_timestamp`: the
/// current time as whole seconds since the unix epoch. Nothing is promised
/// of the clock's value.
#[verifier::external_body]
fn now_unix_seconds() -> i64 {
    time::OffsetDateTime::now_utc().unix_timestamp()
}

/// The dispatch runtime: a FIFO queue of envelopes, the handler and
/// interpreter that drive the worker loop, the worker's completion value
/// once the handler has returned, and the period of the heartbeat generator
/// if one was enabled.
///
/// The state machine is deterministic given the envelopes and the two
/// functions; [`Runner::join`] drives it to completion one envelope at a
/// time, exactly as the worker loop does.
#[verifier::reject_recursive_types(Ev)]
#[verifier::reject_recursive_types(Eff)]
#[verifier::reject_recursive_types(T)]
pub struct Runner<Ev, Eff, T, F, G> where
    F: Fn(Event<Ev>) -> Option<Effect<Eff, T>>,
    G: Fn(Eff) -> Option<Ev>,
 {
    f: F,
    g: G,
    queue: Vec<Event<Ev>>,
    done: Option<T>,
    heartbeat_period: Option<u64>,
    effects: core::marker::PhantomData<Eff>,
}

impl<Ev, Eff, T, F, G> Runner<Ev, Eff, T, F, G> where
    F: Fn(Event<Ev>) -> Option<Effect<Eff, T>>,
    G: Fn(Eff) -> Option<Ev>,
 {
    /// The handler function the worker applies to each envelope.
    pub closed spec fn handler(&self) -> F {
        self.f
    }

    /// The interpreter function that translates requested effects.
    pub closed spec fn interpreter(&self) -> G {
        self.g
    }

    /// The envelopes waiting in the dispatch queue, front first.
    pub closed spec fn events(&self) -> Seq<Event<Ev>> {
        self.queue@
    }

    /// The worker's completion value: `None` while the worker still runs.
    pub closed spec fn completion(&self) -> Option<T> {
        self.done
    }

    /// Whether a heartbeat generator has been enabled.
    pub open spec fn heartbeats_enabled(&self) -> bool {
        self.heartbeat_period_ms() is Some
    }

    /// The heartbeat period in milliseconds, if heartbeats were enabled.
    pub closed spec fn heartbeat_period_ms(&self) -> Option<u64> {
        self.heartbeat_period
    }

    /// The runner's invariant: the handler accepts every envelope, the
    /// interpreter accepts every effect, and a recorded completion value is
    /// one the handler actually returned.
    pub closed spec fn wf(&self) -> bool {
        &&& forall|e: Event<Ev>| #[trigger] call_requires(self.f, (e,))
        &&& forall|eff: Eff| #[trigger] call_requires(self.g, (eff,))
        &&& (self.done matches Some(t) ==> returned_by_handler(self.f, t))
    }

    /// Creates the runner with an empty dispatch queue, the worker running,
    /// and no heartbeat generator. Construction cannot fail.
    pub fn new(f: F, g: G) -> (r: Self)
        requires
            forall|e: Event<Ev>| #[trigger] call_requires(f, (e,)),
            forall|eff: Eff| #[trigger] call_requires(g, (eff,)),
        ensures
            r.wf(),
            r.handler() == f,
            r.interpreter() == g,
            r.events() == Seq::<Event<Ev>>::empty(),
            r.completion() is None,
            !r.heartbeats_enabled(),
    {
        Runner {
            f,
            g,
            queue: Vec::new(),
            done: None,
            heartbeat_period: None,
            effects: core::marker::PhantomData,
        }
    }

    /// Wraps `ev` in a payload envelope stamped with the enqueue time and
    /// pushes it to the back of the dispatch queue; later sends from the same
    /// producer land behind it, so the worker observes them in send order.
    /// Fails with the closed-queue signal exactly when the worker has already
    /// stopped, leaving the runner unchanged.
    pub fn send(&mut self, ev: Ev) -> (r: Result<(), SendError<Event<Ev>>>)
        ensures
            old(self).completion() is Some ==> {
                &&& exists|t: i64| r == Err::<(), SendError<Event<Ev>>>(
                    SendError(Event::Event { time: t, event: ev }))
                &&& *final(self) == *old(self)
            },
            old(self).completion() is None ==> {
                &&& r == Ok::<(), SendError<Event<Ev>>>(())
                &&& exists|t: i64| final(self).events()
                    == old(self).events().push(Event::Event { time: t, event: ev })
                &&& final(self).completion() is None
            },
            final(self).handler() == old(self).handler(),
            final(self).interpreter() == old(self).interpreter(),
            final(self).heartbeat_period_ms() == old(self).heartbeat_period_ms(),
            old(self).wf() ==> final(self).wf(),
    {
        let t = now_unix_seconds();
        if self.done.is_some() {
            let envelope = Event::Event { time: t, event: ev };
            proof {
                assert(Err::<(), SendError<Event<Ev>>>(SendError(envelope))
                    == Err::<(), SendError<Event<Ev>>>(
                        SendError(Event::Event { time: t, event: ev })));
            }
            return Err(SendError(envelope));
        }
        self.queue.push(Event::Event { time: t, event: ev });
        proof {
            assert(self.events() == old(self).events().push(Event::Event { time: t, event: ev }));
        }
        Ok(())
    }

    /// Enables the heartbeat generator with the given period (milliseconds).
    /// At most one generator may exist per runner: a second call is rejected
    /// deterministically and replaces nothing.
    pub fn heartbeats(&mut self, duration_ms: u64) -> (r: Result<(), HeartbeatsError>)
        ensures
            old(self).heartbeats_enabled() ==> r
                == Err::<(), HeartbeatsError>(HeartbeatsError::AlreadyEnabled)
                && *final(self) == *old(self),
            !old(self).heartbeats_enabled() ==> r == Ok::<(), HeartbeatsError>(())
                && final(self).heartbeat_period_ms() == Some(duration_ms),
            final(self).handler() == old(self).handler(),
            final(self).interpreter() == old(self).interpreter(),
            final(self).events() == old(self).events(),
            final(self).completion() == old(self).completion(),
            old(self).wf() ==> final(self).wf(),
    {
        if self.heartbeat_period.is_some() {
            return Err(HeartbeatsError::AlreadyEnabled);
        }
        self.heartbeat_period = Some(duration_ms);
        Ok(())
    }

    /// One tick of the heartbeat generator: push a heartbeat envelope stamped
    /// with the enqueue time, or — once the worker has stopped and the queue
    /// is closed — observe the send failure and exit cleanly without touching
    /// the runner. The closed queue is the generator's only stop signal.
    pub fn heartbeat_tick(&mut self) -> (r: TickOutcome)
        requires
            old(self).heartbeats_enabled(),
        ensures
            old(self).completion() is Some ==> r == TickOutcome::GeneratorExit
                && *final(self) == *old(self),
            old(self).completion() is None ==> {
                &&& r == TickOutcome::Sent
                &&& exists|t: i64| final(self).events()
                    == old(self).events().push(Event::Heartbeat { time: t })
                &&& final(self).completion() is None
            },
            final(self).handler() == old(self).handler(),
            final(self).interpreter() == old(self).interpreter(),
            final(self).heartbeat_period_ms() == old(self).heartbeat_period_ms(),
            old(self).wf() ==> final(self).wf(),
    {
        if self.done.is_some() {
            return TickOutcome::GeneratorExit;
        }
        let t = now_unix_seconds();
        self.queue.push(Event::Heartbeat { time: t });
        proof {
            assert(self.events() == old(self).events().push(Event::Heartbeat { time: t }));
        }
        TickOutcome::Sent
    }

    /// One iteration of the worker loop on the runner's state: take the
    /// envelope at the front of the queue, react to it as [`worker_step`]
    /// says, and apply the step — a feedback envelope joins the back of the
    /// queue, a `Stop` records the completion value.
    pub fn step(&mut self)
        requires
            old(self).wf(),
            old(self).completion() is None,
            old(self).events().len() > 0,
        ensures
            final(self).wf(),
            final(self).handler() == old(self).handler(),
            final(self).interpreter() == old(self).interpreter(),
            final(self).heartbeat_period_ms() == old(self).heartbeat_period_ms(),
            exists|s: Step<Ev, T>, t: i64|
                #[trigger] step_rel(old(self).handler(), old(self).interpreter(),
                    old(self).events()[0], t, s)
                && step_applied(old(self).events(), final(self).events(),
                    final(self).completion(), s),
    {
        let ev = self.queue.remove(0);
        let t = now_unix_seconds();
        let s = worker_step(&self.f, &self.g, ev, t);
        let ghost s0 = s;
        match s {
            Step::Continue => {},
            Step::Feedback(e) => {
                self.queue.push(e);
            },
            Step::Stop(tv) => {
                self.done = Some(tv);
            },
        }
        proof {
            assert(step_rel(old(self).handler(), old(self).interpreter(),
                old(self).events()[0], t, s0));
            assert(step_applied(old(self).events(), self.events(), self.completion(), s0));
            let dsnap = self.completion();
            match dsnap {
                Some(tv) => {
                    assert(s0 == Step::<Ev, T>::Stop(tv));
                    let fr = choose|fr: Option<Effect<Eff, T>>|
                        #[trigger] call_ensures(self.f, (ev,), fr)
                        && step_follows(fr, self.g, t, s0);
                    assert(fr == Some(Effect::<Eff, T>::Return(tv)));
                    assert(call_ensures(self.f, (ev,), Some(Effect::<Eff, T>::Return(tv))));
                    assert(returned_by_handler(self.f, tv));
                },
                None => {},
            }
            assert(forall|e: Event<Ev>| #[trigger] call_requires(self.f, (e,)));
            assert(forall|eff: Eff| #[trigger] call_requires(self.g, (eff,)));
            assert(self.wf());
        }
    }

    /// Drives the worker loop until the handler returns, consuming the
    /// runner, and yields the completion value — exactly the value the
    /// handler returned at the end of a run from the runner's state. When
    /// the queue runs dry, an enabled heartbeat generator keeps the loop
    /// supplied with heartbeat envelopes; without one the worker would wait
    /// forever, which is reported as `Blocked`. `fuel` bounds the number of
    /// transitions taken: every outcome is witnessed by a run ([`is_run`])
    /// of at most `fuel` transitions from the runner's state, so with the
    /// handler and interpreter pinned, the outcome is decided by the runs
    /// that exist — see [`lemma_feedback_run_completes`] and
    /// [`lemma_heartbeat_run_completes`].
    pub fn join(self, fuel: u64) -> (r: RunOutcome<T>)
        requires
            self.wf(),
        ensures
            r matches RunOutcome::Completed(t) ==> returned_by_handler(self.handler(), t),
            self.completion() matches Some(t) ==> r == RunOutcome::<T>::Completed(t),
            self.completion() is None && fuel == 0 ==> r == RunOutcome::<T>::OutOfFuel,
            self.completion() is None && fuel > 0 && self.events().len() == 0
                && !self.heartbeats_enabled() ==> r == RunOutcome::<T>::Blocked,
            r matches RunOutcome::Completed(t) ==> exists|trace: Seq<(Seq<Event<Ev>>, Option<T>)>|
                #[trigger] is_run(self.handler(), self.interpreter(), self.heartbeats_enabled(),
                    trace)
                && 1 <= trace.len() <= fuel + 1
                && trace.first() == (self.events(), self.completion())
                && trace.last().1 == Some(t),
            r == RunOutcome::<T>::OutOfFuel ==> exists|trace: Seq<(Seq<Event<Ev>>, Option<T>)>|
                #[trigger] is_run(self.handler(), self.interpreter(), self.heartbeats_enabled(),
                    trace)
                && trace.len() == fuel + 1
                && trace.first() == (self.events(), self.completion())
                && trace.last().1 is None,
            r == RunOutcome::<T>::Blocked ==> exists|trace: Seq<(Seq<Event<Ev>>, Option<T>)>|
                #[trigger] is_run(self.handler(), self.interpreter(), self.heartbeats_enabled(),
                    trace)
                && 1 <= trace.len() <= fuel + 1
                && trace.first() == (self.events(), self.completion())
                && trace.last().1 is None
                && trace.last().0.len() == 0,
            r == RunOutcome::<T>::Blocked ==> self.completion() is None
                && !self.heartbeats_enabled(),
            r == RunOutcome::<T>::OutOfFuel ==> self.completion() is None,
    {
        let mut cur = self;
        let mut n: u64 = fuel;
        let ghost mut trace: Seq<(Seq<Event<Ev>>, Option<T>)> = seq![
            (self.events(), self.completion()),
        ];
        loop
            invariant
                cur.wf(),
                cur.handler() == self.handler(),
                cur.interpreter() == self.interpreter(),
                cur.heartbeat_period_ms() == self.heartbeat_period_ms(),
                self.completion() is Some ==> cur.completion() == self.completion(),
                is_run(self.handler(), self.interpreter(), self.heartbeats_enabled(), trace),
                trace.len() >= 1,
                trace.len() + n == fuel + 1,
                trace.first() == (self.events(), self.completion()),
                trace.last() == (cur.queue@, cur.done),
            decreases n,
        {
            let ghost cpre = cur;
            match cur.done.take() {
                Some(t) => {
                    proof {
                        assert(cpre.done == Some(t));
                        assert(returned_by_handler(cpre.f, t));
                        assert(returned_by_handler(self.handler(), t));
                        if self.completion() is None && fuel == 0 {
                            assert(trace.len() == 1);
                            assert(trace.last() == trace.first());
                            assert(false);
                        }
                        if self.completion() is None && self.events().len() == 0
                            && !self.heartbeats_enabled() {
                            if trace.len() > 1 {
                                assert(run_link(self.handler(), self.interpreter(),
                                    self.heartbeats_enabled(), trace, 0));
                                assert(false);
                            }
                            assert(trace.last() == trace.first());
                            assert(false);
                        }
                        assert(is_run(self.handler(), self.interpreter(),
                            self.heartbeats_enabled(), trace)
                            && 1 <= trace.len() <= fuel + 1
                            && trace.first() == (self.events(), self.completion())
                            && trace.last().1 == Some(t));
                    }
                    return RunOutcome::Completed(t);
                },
                None => {},
            }
            if n == 0 {
                proof {
                    if self.completion() is None && self.events().len() == 0
                        && !self.heartbeats_enabled() && fuel > 0 {
                        if trace.len() > 1 {
                            assert(run_link(self.handler(), self.interpreter(),
                                self.heartbeats_enabled(), trace, 0));
                            assert(false);
                        }
                        assert(trace.last() == trace.first());
                        assert(false);
                    }
                    assert(is_run(self.handler(), self.interpreter(),
                        self.heartbeats_enabled(), trace)
                        && trace.len() == fuel + 1
                        && trace.first() == (self.events(), self.completion())
                        && trace.last().1 is None);
                }
                return RunOutcome::OutOfFuel;
            }
            if cur.queue.len() > 0 {
                cur.step();
                proof {
                    assert(run_step(self.handler(), self.interpreter(),
                        self.heartbeats_enabled(), cpre.queue@, cur.queue@, cur.done));
                }
            } else if cur.heartbeat_period.is_some() {
                cur.heartbeat_tick();
                proof {
                    assert(run_step(self.handler(), self.interpreter(),
                        self.heartbeats_enabled(), cpre.queue@, cur.queue@, cur.done));
                }
            } else {
                proof {
                    assert(is_run(self.handler(), self.interpreter(),
                        self.heartbeats_enabled(), trace)
                        && 1 <= trace.len() <= fuel + 1
                        && trace.first() == (self.events(), self.completion())
                        && trace.last().1 is None
                        && trace.last().0.len() == 0);
                }
                return RunOutcome::Blocked;
            }
            proof {
                let ghost prev = trace;
                trace = trace.push((cur.queue@, cur.done));
                assert forall|i: int| 0 <= i && i + 1 < trace.len()
                    implies #[trigger] run_link(self.handler(), self.interpreter(),
                        self.heartbeats_enabled(), trace, i) by {
                    if i + 1 < prev.len() {
                        assert(run_link(self.handler(), self.interpreter(),
                            self.heartbeats_enabled(), prev, i));
                        assert(trace[i] == prev[i] && trace[i + 1] == prev[i + 1]);
                    } else {
                        assert(trace[i] == prev.last() && trace[i + 1] == (cur.queue@, cur.done));
                    }
                }
                assert(trace.first() == prev.first());
                assert(trace.last() == (cur.queue@, cur.done));
            }
            n = n - 1;
        }
    }
}

/// `t` is a completion value the handler can actually return: some
/// envelope makes `f` yield the verdict `Return(t)`.
pub open spec fn returned_by_handler<Ev, Eff, T, F: Fn(Event<Ev>) -> Option<Effect<Eff, T>>>(
    f: F,
    t: T,
) -> bool {
    exists|e: Event<Ev>| #[trigger] call_ensures(f, (e,), Some(Effect::<Eff, T>::Return(t)))
}

/// `f` reacts to every payload envelope carrying `v` — whatever the
/// timestamp the queue stamped it with — with exactly the verdict `out`.
pub open spec fn handler_maps<Ev, Eff, T, F: Fn(Event<Ev>) -> Option<Effect<Eff, T>>>(
    f: F,
    v: Ev,
    out: Option<Effect<Eff, T>>,
) -> bool {
    forall|ts: i64, r: Option<Effect<Eff, T>>|
        #[trigger] call_ensures(f, (Event::Event { time: ts, event: v },), r) ==> r == out
}

/// `f` reacts to every heartbeat envelope — whatever its timestamp — with
/// exactly the verdict `out`.
pub open spec fn handler_maps_heartbeat<Ev, Eff, T, F: Fn(Event<Ev>) -> Option<Effect<Eff, T>>>(
    f: F,
    out: Option<Effect<Eff, T>>,
) -> bool {
    forall|ts: i64, r: Option<Effect<Eff, T>>|
        #[trigger] call_ensures(f, (Event::Heartbeat { time: ts },), r) ==> r == out
}

/// `g` translates the effect `eff` to exactly `out`.
pub open spec fn interpreter_maps<Ev, Eff, G: Fn(Eff) -> Option<Ev>>(
    g: G,
    eff: Eff,
    out: Option<Ev>,
) -> bool {
    forall|r: Option<Ev>| #[trigger] call_ensures(g, (eff,), r) ==> r == out
}

/// The feedback law: when the handler reacts to payload `v1` by requesting
/// effect `eff`, the interpreter translates `eff` to the follow-up payload
/// `v2`, and the handler reacts to `v2` by returning `t`, then every worker
/// step on a `v1` envelope pushes exactly the `v2` payload envelope (stamped
/// with the step's enqueue time) back onto the queue, and every worker step
/// on that envelope stops the loop with exactly `t` — so joining after the
/// initial send completes with exactly `t`.
pub proof fn lemma_feedback_chain<Ev, Eff, T, F, G>(
    f: F,
    g: G,
    v1: Ev,
    eff: Eff,
    v2: Ev,
    t: T,
    ts1: i64,
    now1: i64,
    now2: i64,
    s1: Step<Ev, T>,
    s2: Step<Ev, T>,
) where F: Fn(Event<Ev>) -> Option<Effect<Eff, T>>, G: Fn(Eff) -> Option<Ev>
    requires
        handler_maps(f, v1, Some(Effect::<Eff, T>::Effect(eff))),
        interpreter_maps::<Ev, Eff, G>(g, eff, Some(v2)),
        handler_maps(f, v2, Some(Effect::<Eff, T>::Return(t))),
        step_rel(f, g, Event::Event { time: ts1, event: v1 }, now1, s1),
        step_rel(f, g, Event::Event { time: now1, event: v2 }, now2, s2),
    ensures
        s1 == Step::<Ev, T>::Feedback(Event::Event { time: now1, event: v2 }),
        s2 == Step::<Ev, T>::Stop(t),
{
    let ev1 = Event::Event { time: ts1, event: v1 };
    let fr1 = choose|fr: Option<Effect<Eff, T>>|
        #[trigger] call_ensures(f, (ev1,), fr) && step_follows(fr, g, now1, s1);
    assert(fr1 == Some(Effect::<Eff, T>::Effect(eff)));
    let gr1 = choose|gr: Option<Ev>|
        #[trigger] call_ensures(g, (eff,), gr) && match gr {
            None => s1 == Step::<Ev, T>::Continue,
            Some(v) => s1 == Step::<Ev, T>::Feedback(Event::Event { time: now1, event: v }),
        };
    assert(gr1 == Some(v2));
    let ev2 = Event::Event { time: now1, event: v2 };
    let fr2 = choose|fr: Option<Effect<Eff, T>>|
        #[trigger] call_ensures(f, (ev2,), fr) && step_follows(fr, g, now2, s2);
    assert(fr2 == Some(Effect::<Eff, T>::Return(t)));
}

/// The heartbeat-termination law: a handler that returns `t` on every
/// heartbeat stops the loop at the first heartbeat envelope the worker
/// takes, with exactly `t` — so, with heartbeats enabled, joining completes
/// with `t` once the first tick has fired. How soon that tick fires is the
/// generator's period and is outside this model.
pub proof fn lemma_heartbeat_stops<Ev, Eff, T, F, G>(
    f: F,
    g: G,
    t: T,
    ts: i64,
    now: i64,
    s: Step<Ev, T>,
) where F: Fn(Event<Ev>) -> Option<Effect<Eff, T>>, G: Fn(Eff) -> Option<Ev>
    requires
        handler_maps_heartbeat(f, Some(Effect::<Eff, T>::Return(t))),
        step_rel(f, g, Event::Heartbeat { time: ts }, now, s),
    ensures
        s == Step::<Ev, T>::Stop(t),
{
    let ev = Event::Heartbeat { time: ts };
    let fr = choose|fr: Option<Effect<Eff, T>>|
        #[trigger] call_ensures(f, (ev,), fr) && step_follows(fr, g, now, s);
    assert(fr == Some(Effect::<Eff, T>::Return(t)));
}

/// The feedback law at the runner level: with a handler that reacts to
/// payload `v1` by requesting `eff`, an interpreter that translates `eff`
/// to the follow-up `v2`, and the handler reacting to `v2` by returning
/// `t`, every run from a queue holding exactly the `v1` payload stops
/// within two transitions, with exactly `t`. [`Runner::join`] witnesses
/// each outcome by such a run, so after sending the payload, a join with
/// fuel for two transitions returns exactly `Completed(t)`: a longer run
/// that has not completed does not exist, nor one that ends waiting on an
/// empty queue.
pub proof fn lemma_feedback_run_completes<Ev, Eff, T, F, G>(
    f: F,
    g: G,
    hb: bool,
    v1: Ev,
    eff: Eff,
    v2: Ev,
    t: T,
    ts1: i64,
    trace: Seq<(Seq<Event<Ev>>, Option<T>)>,
) where F: Fn(Event<Ev>) -> Option<Effect<Eff, T>>, G: Fn(Eff) -> Option<Ev>
    requires
        handler_maps(f, v1, Some(Effect::<Eff, T>::Effect(eff))),
        interpreter_maps::<Ev, Eff, G>(g, eff, Some(v2)),
        handler_maps(f, v2, Some(Effect::<Eff, T>::Return(t))),
        is_run(f, g, hb, trace),
        trace.len() >= 1,
        trace.first() == (seq![Event::Event { time: ts1, event: v1 }], None::<T>),
    ensures
        trace.len() <= 3,
        trace.last().1 matches Some(tv) ==> tv == t,
        trace.len() == 3 ==> trace.last().1 == Some(t),
        trace.last().1 is None ==> trace.last().0.len() > 0,
{
    let ev1 = Event::Event { time: ts1, event: v1 };
    if trace.len() >= 2 {
        assert(run_link(f, g, hb, trace, 0));
        assert(trace[0].0[0] == ev1);
        let (s1, n1) = choose|s: Step<Ev, T>, tt: i64|
            #[trigger] step_rel(f, g, trace[0].0[0], tt, s)
            && step_applied(trace[0].0, trace[1].0, trace[1].1, s);
        let fr1 = choose|fr: Option<Effect<Eff, T>>|
            #[trigger] call_ensures(f, (ev1,), fr) && step_follows(fr, g, n1, s1);
        assert(fr1 == Some(Effect::<Eff, T>::Effect(eff)));
        let gr1 = choose|gr: Option<Ev>|
            #[trigger] call_ensures(g, (eff,), gr) && match gr {
                None => s1 == Step::<Ev, T>::Continue,
                Some(v) => s1 == Step::<Ev, T>::Feedback(Event::Event { time: n1, event: v }),
            };
        assert(gr1 == Some(v2));
        let ev2 = Event::Event { time: n1, event: v2 };
        assert(s1 == Step::<Ev, T>::Feedback(ev2));
        assert(trace[1].0 =~= seq![ev2]);
        assert(trace[1].1 is None);
        if trace.len() >= 3 {
            assert(run_link(f, g, hb, trace, 1));
            assert(trace[1].0[0] == ev2);
            let (s2, n2) = choose|s: Step<Ev, T>, tt: i64|
                #[trigger] step_rel(f, g, trace[1].0[0], tt, s)
                && step_applied(trace[1].0, trace[2].0, trace[2].1, s);
            let fr2 = choose|fr: Option<Effect<Eff, T>>|
                #[trigger] call_ensures(f, (ev2,), fr) && step_follows(fr, g, n2, s2);
            assert(fr2 == Some(Effect::<Eff, T>::Return(t)));
            assert(s2 == Step::<Ev, T>::Stop(t));
            assert(trace[2].1 == Some(t));
            if trace.len() >= 4 {
                assert(run_link(f, g, hb, trace, 2));
                assert(false);
            }
        }
    }
}

/// The heartbeat-termination law at the runner level: with heartbeats
/// enabled and a handler that returns `t` on every heartbeat, every run
/// from an empty queue stops within two transitions — one tick, one worker
/// step — with exactly `t`. [`Runner::join`] witnesses each outcome by
/// such a run, so a join with fuel for two transitions returns exactly
/// `Completed(t)`. How soon the real tick fires is the generator's period
/// and is outside this model.
pub proof fn lemma_heartbeat_run_completes<Ev, Eff, T, F, G>(
    f: F,
    g: G,
    t: T,
    trace: Seq<(Seq<Event<Ev>>, Option<T>)>,
) where F: Fn(Event<Ev>) -> Option<Effect<Eff, T>>, G: Fn(Eff) -> Option<Ev>
    requires
        handler_maps_heartbeat(f, Some(Effect::<Eff, T>::Return(t))),
        is_run(f, g, true, trace),
        trace.len() >= 1,
        trace.first() == (Seq::<Event<Ev>>::empty(), None::<T>),
    ensures
        trace.len() <= 3,
        trace.last().1 matches Some(tv) ==> tv == t,
        trace.len() == 3 ==> trace.last().1 == Some(t),
{
    if trace.len() >= 2 {
        assert(run_link(f, g, true, trace, 0));
        let ts = choose|tt: i64| trace[1].0 == trace[0].0.push(Event::Heartbeat { time: tt });
        let hbev = Event::Heartbeat { time: ts };
        assert(trace[1].0 =~= seq![hbev]);
        assert(trace[1].1 is None);
        if trace.len() >= 3 {
            assert(run_link(f, g, true, trace, 1));
            assert(trace[1].0[0] == hbev);
            let (s2, n2) = choose|s: Step<Ev, T>, tt: i64|
                #[trigger] step_rel(f, g, trace[1].0[0], tt, s)
                && step_applied(trace[1].0, trace[2].0, trace[2].1, s);
            lemma_heartbeat_stops(f, g, t, ts, n2, s2);
            assert(trace[2].1 == Some(t));
            if trace.len() >= 4 {
                assert(run_link(f, g, true, trace, 2));
                assert(false);
            }
        }
    }
}

/// The queue contents after a sequence of sends from one producer: each
/// sent envelope joins the back of the queue in turn, as
/// [`Runner::send`] does.
pub open spec fn enqueue_all<Ev>(q: Seq<Event<Ev>>, evs: Seq<Event<Ev>>) -> Seq<Event<Ev>>
    decreases evs.len(),
{
    if evs.len() == 0 {
        q
    } else {
        enqueue_all(q.push(evs[0]), evs.drop_first())
    }
}

/// The per-producer FIFO law: a sequence of sends lands behind the queue's
/// prior contents, in exactly the order sent. Since the worker consumes the
/// queue strictly from the front, it observes one producer's sends in their
/// send order.
pub proof fn lemma_sends_keep_order<Ev>(q: Seq<Event<Ev>>, evs: Seq<Event<Ev>>)
    ensures
        enqueue_all(q, evs) == q + evs,
    decreases evs.len(),
{
    if evs.len() == 0 {
        assert(q + evs =~= q);
    } else {
        lemma_sends_keep_order(q.push(evs[0]), evs.drop_first());
        assert(q.push(evs[0]) + evs.drop_first() =~= q + evs);
    }
}

/// Builds the handler verdict that requests side effect `eff`.
pub fn effect<Eff, T>(eff: Eff) -> (r: Option<Effect<Eff, T>>)
    ensures
        r == Some(Effect::<Eff, T>::Effect(eff)),
{
    Some(Effect::Effect(eff))
}

/// Builds the handler verdict that stops the loop with completion value `t`.
pub fn return_<Eff, T>(t: T) -> (r: Option<Effect<Eff, T>>)
    ensures
        r == Some(Effect::<Eff, T>::Return(t)),
{
    Some(Effect::Return(t))
}

/// The verdict that requests nothing: the loop keeps running.
pub fn noop<T>() -> (r: Option<T>)
    ensures
        r is None,
{
    None
}

/// Builds the interpreter verdict that feeds `e` back into the loop.
pub fn event<E>(e: E) -> (r: Option<E>)
    ensures
        r == Some(e),
{
    Some(e)
}

} // verus!
