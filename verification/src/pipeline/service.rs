//! Admission control of the application service handler: bounded in-flight
//! calls, a bounded FIFO of waiting requests, and an overload action when
//! both are full.
use std::collections::VecDeque;
use vstd::prelude::*;

verus! {

/// What to do with a request that finds both the call slots and the queue full.
#[derive(Debug, Clone, Copy, PartialEq, Eq)]
pub enum OverloadAction {
    /// Reject it (an exception is raised on the pipeline).
    FailFast,
    /// Signal backpressure (writability becomes false).
    Backpressure,
    /// Close the connection.
    CloseConnection,
}

/// Per-connection service limits.
#[derive(Debug, Clone, Copy, PartialEq, Eq)]
pub struct AppServiceOptions {
    pub max_inflight_per_connection: usize,
    pub max_queue_per_connection: usize,
    pub overload_action: OverloadAction,
}

impl AppServiceOptions {
    /// At least one call may be in flight.
    pub fn normalized(self) -> (o: Self)
        ensures
            o == (AppServiceOptions {
                max_inflight_per_connection: if self.max_inflight_per_connection > 1 {
                    self.max_inflight_per_connection
                } else {
                    1
                },
                ..self
            }),
    {
        let mut o = self;
        o.max_inflight_per_connection = if self.max_inflight_per_connection > 1 {
            self.max_inflight_per_connection
        } else {
            1
        };
        o
    }
}

impl Default for AppServiceOptions {
    fn default() -> (o: Self)
        ensures
            o == (AppServiceOptions {
                max_inflight_per_connection: 1,
                max_queue_per_connection: 1024,
                overload_action: OverloadAction::FailFast,
            }),
    {
        AppServiceOptions {
            max_inflight_per_connection: 1,
            max_queue_per_connection: 1024,
            overload_action: OverloadAction::FailFast,
        }
    }
}

/// Overload counters (the high watermark is the longest queue seen).
#[derive(Debug, Clone, Copy, PartialEq, Eq)]
pub struct AppOverloadStats {
    pub reject_total: u64,
    pub backpressure_total: u64,
    pub close_total: u64,
    pub queue_high_watermark: u64,
}

impl Default for AppOverloadStats {
    fn default() -> (s: Self)
        ensures
            s == (AppOverloadStats { reject_total: 0, backpressure_total: 0, close_total: 0, queue_high_watermark: 0 }),
    {
        AppOverloadStats { reject_total: 0, backpressure_total: 0, close_total: 0, queue_high_watermark: 0 }
    }
}

/// What happened to a request.
#[derive(Debug, PartialEq, Eq)]
pub enum Admission {
    /// Start a call for this request now.
    Start(Vec<u8>),
    /// The request waits in the queue.
    Queued,
    /// Overloaded and rejected: raise `NoMem` on the pipeline.
    Rejected,
    /// Overloaded: signal backpressure (writability false).
    Backpressure,
    /// Overloaded: close the connection.
    Close,
}

/// `a + 1`, saturated at `u64::MAX`.
pub open spec fn sat_inc(a: u64) -> u64 {
    if a == u64::MAX { a } else { (a + 1) as u64 }
}

/// Admission state of the application service handler.
#[derive(Debug)]
pub struct AppServiceHandler {
    opts: AppServiceOptions,
    active_calls: usize,
    queue: VecDeque<Vec<u8>>,
    overload_reject_total: u64,
    overload_backpressure_total: u64,
    overload_close_total: u64,
    queue_high_watermark: u64,
}

impl AppServiceHandler {
    pub closed spec fn options(&self) -> AppServiceOptions {
        self.opts
    }

    /// Calls started and not yet completed.
    pub closed spec fn active(&self) -> nat {
        self.active_calls as nat
    }

    /// Waiting requests, oldest first.
    pub closed spec fn waiting(&self) -> Seq<Seq<u8>> {
        self.queue@.map_values(|v: Vec<u8>| v@)
    }

    pub closed spec fn stats(&self) -> AppOverloadStats {
        AppOverloadStats {
            reject_total: self.overload_reject_total,
            backpressure_total: self.overload_backpressure_total,
            close_total: self.overload_close_total,
            queue_high_watermark: self.queue_high_watermark,
        }
    }

    /// Calls in flight never exceed the limit, and a request only waits
    /// while every call slot is taken.
    pub closed spec fn wf(&self) -> bool {
        &&& self.opts.max_inflight_per_connection >= 1
        &&& self.active_calls <= self.opts.max_inflight_per_connection
        &&& self.queue@.len() > 0 ==> self.active_calls == self.opts.max_inflight_per_connection
        &&& self.queue@.len() <= self.opts.max_queue_per_connection
    }

    /// A handler with normalized options and nothing in flight.
    pub fn new(opts: AppServiceOptions) -> (h: Self)
        ensures
            h.wf(),
            h.options() == (AppServiceOptions {
                max_inflight_per_connection: if opts.max_inflight_per_connection > 1 {
                    opts.max_inflight_per_connection
                } else {
                    1
                },
                ..opts
            }),
            h.active() == 0,
            h.waiting() == Seq::<Seq<u8>>::empty(),
            h.stats() == (AppOverloadStats { reject_total: 0, backpressure_total: 0, close_total: 0, queue_high_watermark: 0 }),
    {
        let h = AppServiceHandler {
            opts: opts.normalized(),
            active_calls: 0,
            queue: VecDeque::new(),
            overload_reject_total: 0,
            overload_backpressure_total: 0,
            overload_close_total: 0,
            queue_high_watermark: 0,
        };
        proof { assert(h.waiting() =~= Seq::<Seq<u8>>::empty()); }
        h
    }

    /// Admit one decoded request: start it if a call slot is free, else
    /// queue it if the queue has room, else apply the overload action.
    pub fn channel_read(&mut self, msg: Vec<u8>) -> (a: Admission)
        requires
            old(self).wf(),
        ensures
            final(self).wf(),
            final(self).options() == old(self).options(),
            old(self).active() < old(self).options().max_inflight_per_connection ==> {
                &&& a matches Admission::Start(m) && m@ == msg@
                &&& final(self).active() == old(self).active() + 1
                &&& final(self).waiting() == old(self).waiting()
                &&& final(self).stats() == old(self).stats()
            },
            old(self).active() >= old(self).options().max_inflight_per_connection
                && old(self).waiting().len() < old(self).options().max_queue_per_connection ==> {
                &&& a is Queued
                &&& final(self).active() == old(self).active()
                &&& final(self).waiting() == old(self).waiting().push(msg@)
                &&& final(self).stats() == (AppOverloadStats {
                    queue_high_watermark: if final(self).waiting().len() > old(self).stats().queue_high_watermark {
                        final(self).waiting().len() as u64
                    } else {
                        old(self).stats().queue_high_watermark
                    },
                    ..old(self).stats()
                })
            },
            old(self).active() >= old(self).options().max_inflight_per_connection
                && old(self).waiting().len() >= old(self).options().max_queue_per_connection ==> {
                &&& final(self).active() == old(self).active()
                &&& final(self).waiting() == old(self).waiting()
                &&& match old(self).options().overload_action {
                    OverloadAction::FailFast => a is Rejected && final(self).stats() == (AppOverloadStats {
                        reject_total: sat_inc(old(self).stats().reject_total),
                        ..old(self).stats()
                    }),
                    OverloadAction::Backpressure => a is Backpressure && final(self).stats() == (AppOverloadStats {
                        backpressure_total: sat_inc(old(self).stats().backpressure_total),
                        ..old(self).stats()
                    }),
                    OverloadAction::CloseConnection => a is Close && final(self).stats() == (AppOverloadStats {
                        close_total: sat_inc(old(self).stats().close_total),
                        ..old(self).stats()
                    }),
                }
            },
    {
        if self.active_calls < self.opts.max_inflight_per_connection {
            self.active_calls = self.active_calls + 1;
            return Admission::Start(msg);
        }
        if self.queue.len() < self.opts.max_queue_per_connection {
            let ghost w0 = self.waiting();
            let ghost m = msg@;
            self.queue.push_back(msg);
            proof { assert(self.waiting() =~= w0.push(m)); }
            self.note_queue_high_watermark();
            return Admission::Queued;
        }
        match self.opts.overload_action {
            OverloadAction::FailFast => {
                self.overload_reject_total = self.overload_reject_total.saturating_add(1);
                Admission::Rejected
            },
            OverloadAction::Backpressure => {
                self.overload_backpressure_total = self.overload_backpressure_total.saturating_add(1);
                Admission::Backpressure
            },
            OverloadAction::CloseConnection => {
                self.overload_close_total = self.overload_close_total.saturating_add(1);
                Admission::Close
            },
        }
    }

    fn note_queue_high_watermark(&mut self)
        ensures
            final(self).opts == old(self).opts,
            final(self).active_calls == old(self).active_calls,
            final(self).queue == old(self).queue,
            final(self).overload_reject_total == old(self).overload_reject_total,
            final(self).overload_backpressure_total == old(self).overload_backpressure_total,
            final(self).overload_close_total == old(self).overload_close_total,
            final(self).queue_high_watermark == (if old(self).queue@.len() > old(self).queue_high_watermark {
                old(self).queue@.len() as u64
            } else {
                old(self).queue_high_watermark
            }),
    {
        let q = self.queue.len() as u64;
        if q > self.queue_high_watermark {
            self.queue_high_watermark = q;
        }
    }

    /// Start waiting requests, oldest first, while call slots are free.
    fn maybe_start_next(&mut self) -> (started: Vec<Vec<u8>>)
        requires
            old(self).opts.max_inflight_per_connection >= 1,
            old(self).active_calls <= old(self).opts.max_inflight_per_connection,
            old(self).queue@.len() <= old(self).opts.max_queue_per_connection,
        ensures
            final(self).wf(),
            final(self).opts == old(self).opts,
            final(self).stats() == old(self).stats(),
            ({
                let k = started@.len();
                &&& k <= old(self).queue@.len()
                &&& old(self).active_calls + k <= old(self).opts.max_inflight_per_connection
                &&& final(self).active_calls == old(self).active_calls + k
                &&& started@.map_values(|v: Vec<u8>| v@) == old(self).waiting().take(k as int)
                &&& final(self).waiting() == old(self).waiting().skip(k as int)
                &&& (k < old(self).queue@.len() ==> final(self).active_calls == old(self).opts.max_inflight_per_connection)
            }),
    {
        let ghost w0 = self.waiting();
        let mut started: Vec<Vec<u8>> = Vec::new();
        proof {
            assert(started@.map_values(|v: Vec<u8>| v@) =~= w0.take(0));
            assert(w0.skip(0) =~= w0);
        }
        while self.active_calls < self.opts.max_inflight_per_connection && self.queue.len() > 0
            invariant
                self.opts == old(self).opts,
                self.opts.max_inflight_per_connection >= 1,
                self.stats() == old(self).stats(),
                w0 == old(self).waiting(),
                w0.len() == old(self).queue@.len(),
                self.active_calls <= self.opts.max_inflight_per_connection,
                started@.len() <= w0.len(),
                self.active_calls == old(self).active_calls + started@.len(),
                started@.map_values(|v: Vec<u8>| v@) == w0.take(started@.len() as int),
                self.waiting() == w0.skip(started@.len() as int),
                self.queue@.len() == w0.len() - started@.len(),
                w0.len() <= self.opts.max_queue_per_connection,
            decreases self.queue@.len(),
        {
            let ghost q0 = self.queue@;
            let ghost s0 = started@;
            let ghost wq0 = self.waiting();
            let req = self.queue.pop_front().unwrap();
            proof {
                assert(self.queue@ =~= q0.subrange(1, q0.len() as int));
                assert(wq0 == w0.skip(s0.len() as int));
                assert(wq0[0] == q0[0]@);
                assert(req@ == w0[s0.len() as int]);
                assert(self.waiting() =~= wq0.subrange(1, wq0.len() as int));
            }
            started.push(req);
            self.active_calls = self.active_calls + 1;
            proof {
                assert(started@.map_values(|v: Vec<u8>| v@) =~= w0.take(started@.len() as int));
                assert(self.waiting() =~= w0.skip(started@.len() as int));
            }
        }
        started
    }

    /// Whether requests are waiting (or, as the caller knows, started calls
    /// are still to be polled).
    pub fn has_app_backlog(&self, inflight_pending: bool) -> (r: bool)
        ensures
            r == (self.waiting().len() > 0 || inflight_pending),
    {
        self.queue.len() > 0 || inflight_pending
    }

    /// A call completed: free its slot and start waiting requests (oldest
    /// first) while slots are free; returns the requests to start.
    pub fn on_app_complete(&mut self) -> (started: Vec<Vec<u8>>)
        requires
            old(self).wf(),
        ensures
            final(self).wf(),
            final(self).options() == old(self).options(),
            final(self).stats() == old(self).stats(),
            ({
                let freed: nat = if old(self).active() > 0 { (old(self).active() - 1) as nat } else { 0 };
                let k = started@.len();
                &&& started@.map_values(|v: Vec<u8>| v@) == old(self).waiting().take(k as int)
                &&& final(self).waiting() == old(self).waiting().skip(k as int)
                &&& final(self).active() == freed + k
                &&& k == (if old(self).waiting().len() < old(self).options().max_inflight_per_connection - freed {
                    old(self).waiting().len() as int
                } else {
                    old(self).options().max_inflight_per_connection - freed
                })
            }),
    {
        if self.active_calls > 0 {
            self.active_calls = self.active_calls - 1;
        }
        self.maybe_start_next()
    }

    /// The connection went inactive: forget everything.
    pub fn channel_inactive(&mut self)
        ensures
            final(self).options() == old(self).options(),
            final(self).active() == 0,
            final(self).waiting() == Seq::<Seq<u8>>::empty(),
            final(self).stats() == (AppOverloadStats { reject_total: 0, backpressure_total: 0, close_total: 0, queue_high_watermark: 0 }),
            old(self).options().max_inflight_per_connection >= 1 ==> final(self).wf(),
    {
        self.active_calls = 0;
        self.queue = VecDeque::new();
        self.overload_reject_total = 0;
        self.overload_backpressure_total = 0;
        self.overload_close_total = 0;
        self.queue_high_watermark = 0;
        proof { assert(self.waiting() =~= Seq::<Seq<u8>>::empty()); }
    }

    /// Take the overload counters; the totals reset, the high watermark stays.
    pub fn take_overload_stats(&mut self) -> (s: AppOverloadStats)
        ensures
            s == old(self).stats(),
            final(self).stats() == (AppOverloadStats {
                reject_total: 0,
                backpressure_total: 0,
                close_total: 0,
                ..old(self).stats()
            }),
            final(self).options() == old(self).options(),
            final(self).active() == old(self).active(),
            final(self).waiting() == old(self).waiting(),
            old(self).wf() ==> final(self).wf(),
    {
        let s = AppOverloadStats {
            reject_total: self.overload_reject_total,
            backpressure_total: self.overload_backpressure_total,
            close_total: self.overload_close_total,
            queue_high_watermark: self.queue_high_watermark,
        };
        self.overload_reject_total = 0;
        self.overload_backpressure_total = 0;
        self.overload_close_total = 0;
        s
    }
}

} // verus!
