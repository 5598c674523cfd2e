//! The command bus client's correlation logic.
//!
//! `execute` and `broadcast` wrap a command with a fresh correlation id and
//! register a slot for it; every inbound wrapped response is offered to
//! `on_response`, which wakes exactly the slot whose id matches and leaves
//! every other slot untouched.  Timeouts republish the same wrapped command
//! (never a fresh id) up to `max_retries` times before the slot expires.
//! The publishing itself (the transport) lives outside; this type decides
//! what to publish and how each response and timer event changes the table.

use vstd::prelude::*;
use crate::commands::{Command, Response, WrappedCommand, WrappedResponse};
use crate::ids::Uid;
use crate::registry::{Registry, find_key, lemma_find_key};

verus! {

/// Configuration of a command bus client.
#[derive(PartialEq, Debug, Clone)]
pub struct CsSettings {
    pub conn_count: u64,
    pub redis_host: String,
    pub responses_channel: String,
    pub timeout: u64,
    pub max_retries: u64,
}

/// What a correlation slot is doing.
#[derive(PartialEq, Debug, Clone)]
pub enum SlotState {
    /// An `execute` call awaiting its first matching response; `publishes`
    /// counts how many copies of the command have been published so far.
    Waiting { publishes: u64 },
    /// The matching response arrived and waits to be collected.
    Resolved { response: Response },
    /// The retry budget ran out before any response arrived.
    TimedOut,
    /// A `broadcast` call collecting every matching response, in arrival order.
    Collecting { responses: Vec<Response> },
}

/// One correlated request in flight.
#[derive(PartialEq, Debug, Clone)]
pub struct SlotData {
    pub cmd: Command,
    pub channel: String,
    pub state: SlotState,
}

/// What `on_response` did with an inbound wrapped response.
#[derive(PartialEq, Debug, Clone)]
pub enum DeliverOutcome {
    /// It resolved the waiting `execute` slot with the matching id.
    Woke,
    /// It was appended to the collector with the matching id.
    Collected,
    /// No live slot matched; the response was dropped.
    Discarded,
}

/// What a timer expiry means for the slot it fired for.
#[derive(PartialEq, Debug, Clone)]
pub enum TimeoutOutcome {
    /// Publish this wrapped command again (same correlation id).
    Republish(WrappedCommand),
    /// The retry budget is spent: the call resolves with a timeout error.
    Expired,
    /// The slot is gone or no longer waiting; nothing to do.
    Ignored,
}

/// The correlation table of one command bus client.
pub struct CommandServer {
    pub settings: CsSettings,
    pub slots: Registry<SlotData>,
}

impl CommandServer {
    /// Slots are uniquely keyed and no waiter has published more than
    /// `max_retries + 1` copies.
    pub open spec fn wf(self) -> bool {
        &&& self.slots.wf()
        &&& self.settings.max_retries < u64::MAX
        &&& forall|i: int| 0 <= i < self.slots.entries@.len()
            ==> match (#[trigger] self.slots.entries@[i]).1.state {
                SlotState::Waiting { publishes } => 1 <= publishes
                    <= self.settings.max_retries + 1,
                _ => true,
            }
    }

    pub fn new(settings: CsSettings) -> (r: CommandServer)
        requires
            settings.max_retries < u64::MAX,
        ensures
            r.wf(),
            r.settings == settings,
            r.slots.entries@.len() == 0,
    {
        CommandServer { settings, slots: Registry::new() }
    }

    /// The index of the slot correlated with `id`, if one exists.
    fn find_idx(&self, id: Uid) -> (r: Option<usize>)
        ensures
            match r {
                Some(i) => i as int == find_key(self.slots.entries@, id),
                None => find_key(self.slots.entries@, id) == -1,
            },
    {
        let n = self.slots.entries.len();
        let mut i: usize = 0;
        while i < n
            invariant
                n == self.slots.entries@.len(),
                i <= n,
                forall|j: int| 0 <= j < i ==> (#[trigger] self.slots.entries@[j]).0 != id,
            decreases n - i,
        {
            if self.slots.entries[i].0 == id {
                proof {
                    lemma_find_key(self.slots.entries@, id);
                }
                return Some(i);
            }
            i += 1;
        }
        proof {
            lemma_find_key(self.slots.entries@, id);
        }
        None
    }

    /// Begins an `execute`: wraps `cmd` under a fresh correlation id,
    /// registers a waiting slot for it, and returns the wrapped command for
    /// the caller to publish on `channel`.
    pub fn execute_start(&mut self, cmd: Command, channel: String) -> (r: WrappedCommand)
        requires
            old(self).wf(),
        ensures
            final(self).wf(),
            final(self).settings == old(self).settings,
            r.cmd == cmd,
            final(self).slots.spec_get(r.uuid) == Some(
                (SlotData {
                    cmd: cmd,
                    channel: channel,
                    state: SlotState::Waiting { publishes: 1 },
                }),
            ),
            ({
                let k = find_key(old(self).slots.entries@, r.uuid);
                let slot = (SlotData {
                    cmd: cmd,
                    channel: channel,
                    state: SlotState::Waiting { publishes: 1 },
                });
                if k == -1 {
                    final(self).slots.entries@ == old(self).slots.entries@.push((r.uuid, slot))
                } else {
                    final(self).slots.entries@ == old(self).slots.entries@.update(k, (r.uuid, slot))
                }
            }),
    {
        let id = Uid::fresh();
        let w = WrappedCommand { uuid: id, cmd: cmd.duplicate() };
        let slot = SlotData { cmd, channel, state: SlotState::Waiting { publishes: 1 } };
        self.slots.insert(id, slot);
        proof {
            let pre = old(self).slots.entries@;
            let post = self.slots.entries@;
            let k = find_key(pre, id);
            assert forall|i: int| 0 <= i < post.len() implies match (#[trigger] post[i]).1.state {
                SlotState::Waiting { publishes } => 1 <= publishes
                    <= self.settings.max_retries + 1,
                _ => true,
            } by {
                if k == -1 {
                    assert(post == pre.push((id, slot)));
                    if i < pre.len() {
                        assert(post[i] == pre[i]);
                    } else {
                        assert(post[i] == (id, slot));
                    }
                } else {
                    lemma_find_key(pre, id);
                    assert(post == pre.update(k, (id, slot)));
                    if i != k {
                        assert(post[i] == pre[i]);
                    } else {
                        assert(post[i] == (id, slot));
                    }
                }
            }
        }
        w
    }

    /// Begins a `broadcast`: like `execute_start`, but the slot collects
    /// every response with the matching id until the caller harvests it.
    pub fn broadcast_start(&mut self, cmd: Command, channel: String) -> (r: WrappedCommand)
        requires
            old(self).wf(),
        ensures
            final(self).wf(),
            final(self).settings == old(self).settings,
            r.cmd == cmd,
            ({
                let k = find_key(old(self).slots.entries@, r.uuid);
                let pre = old(self).slots.entries@;
                &&& (final(self).slots.spec_get(r.uuid) matches Some(s)
                    && s.cmd == cmd && s.channel == channel
                    && (s.state matches SlotState::Collecting { responses }
                        && responses@.len() == 0))
                &&& (k == -1 ==> final(self).slots.entries@.len() == pre.len() + 1
                    && (forall|j: int| 0 <= j < pre.len()
                        ==> final(self).slots.entries@[j] == pre[j])
                    && final(self).slots.entries@[pre.len() as int].0 == r.uuid)
                &&& (k != -1 ==> final(self).slots.entries@.len() == pre.len()
                    && (forall|j: int| 0 <= j < pre.len() && j != k
                        ==> final(self).slots.entries@[j] == pre[j])
                    && final(self).slots.entries@[k].0 == r.uuid)
            }),
    {
        let id = Uid::fresh();
        let w = WrappedCommand { uuid: id, cmd: cmd.duplicate() };
        let slot = SlotData { cmd, channel, state: SlotState::Collecting { responses: Vec::new() } };
        proof {
            lemma_find_key(old(self).slots.entries@, id);
        }
        self.slots.insert(id, slot);
        w
    }

    /// Offers an inbound wrapped response to the correlation table.  Exactly
    /// the slot whose id matches changes: a waiter resolves, a collector
    /// appends (arrival order preserved); everything else, and a response
    /// with no live slot, is left alone.
    pub fn on_response(&mut self, wr: WrappedResponse) -> (r: DeliverOutcome)
        requires
            old(self).wf(),
        ensures
            final(self).wf(),
            final(self).settings == old(self).settings,
            ({
                let k = find_key(old(self).slots.entries@, wr.uuid);
                let pre = old(self).slots.entries@;
                if k == -1 {
                    r == DeliverOutcome::Discarded && *final(self) == *old(self)
                } else {
                    match pre[k].1.state {
                        SlotState::Waiting { .. } => {
                            &&& r == DeliverOutcome::Woke
                            &&& final(self).slots.entries@ == pre.update(
                                k,
                                (wr.uuid, (SlotData {
                                    cmd: pre[k].1.cmd,
                                    channel: pre[k].1.channel,
                                    state: SlotState::Resolved { response: wr.res },
                                })),
                            )
                        },
                        SlotState::Collecting { responses } => {
                            &&& r == DeliverOutcome::Collected
                            &&& final(self).slots.entries@.len() == pre.len()
                            &&& forall|j: int| 0 <= j < pre.len() && j != k
                                ==> final(self).slots.entries@[j] == pre[j]
                            &&& final(self).slots.entries@[k].0 == wr.uuid
                            &&& final(self).slots.entries@[k].1.cmd == pre[k].1.cmd
                            &&& final(self).slots.entries@[k].1.channel == pre[k].1.channel
                            &&& (final(self).slots.entries@[k].1.state matches
                                SlotState::Collecting { responses: post }
                                    && post@ == responses@.push(wr.res))
                        },
                        _ => r == DeliverOutcome::Discarded && *final(self) == *old(self),
                    }
                }
            }),
    {
        let idx = self.find_idx(wr.uuid);
        proof {
            lemma_find_key(self.slots.entries@, wr.uuid);
        }
        match idx {
            None => DeliverOutcome::Discarded,
            Some(i) => {
                let kind: u8 = match &self.slots.entries[i].1.state {
                    SlotState::Waiting { .. } => 0,
                    SlotState::Collecting { .. } => 1,
                    _ => 2,
                };
                if kind == 0 {
                    let entry = &mut self.slots.entries[i];
                    entry.1.state = SlotState::Resolved { response: wr.res };
                    proof {
                        assert(self.slots.entries@ =~= old(self).slots.entries@.update(
                            i as int,
                            self.slots.entries@[i as int],
                        ));
                    }
                    DeliverOutcome::Woke
                } else if kind == 1 {
                    let entry = &mut self.slots.entries[i];
                    match &mut entry.1.state {
                        SlotState::Collecting { responses } => {
                            responses.push(wr.res);
                        },
                        _ => {},
                    }
                    DeliverOutcome::Collected
                } else {
                    DeliverOutcome::Discarded
                }
            },
        }
    }

    /// Applies one expiry of the per-request timer for the slot correlated
    /// with `id`.  While the retry budget lasts, the same wrapped command
    /// (same id) is handed back for republication; once `max_retries + 1`
    /// copies have been published, the slot expires with a timeout.
    pub fn on_timeout(&mut self, id: Uid) -> (r: TimeoutOutcome)
        requires
            old(self).wf(),
        ensures
            final(self).wf(),
            final(self).settings == old(self).settings,
            ({
                let k = find_key(old(self).slots.entries@, id);
                let pre = old(self).slots.entries@;
                if k == -1 {
                    r == TimeoutOutcome::Ignored && *final(self) == *old(self)
                } else {
                    match pre[k].1.state {
                        SlotState::Waiting { publishes } => {
                            if publishes <= old(self).settings.max_retries {
                                &&& (r matches TimeoutOutcome::Republish(w) && w.uuid == id
                                    && w.cmd == pre[k].1.cmd)
                                &&& final(self).slots.entries@ == pre.update(
                                    k,
                                    (id, (SlotData {
                                        cmd: pre[k].1.cmd,
                                        channel: pre[k].1.channel,
                                        state: SlotState::Waiting {
                                            publishes: (publishes + 1) as u64,
                                        },
                                    })),
                                )
                            } else {
                                &&& r == TimeoutOutcome::Expired
                                &&& publishes == old(self).settings.max_retries + 1
                                &&& final(self).slots.entries@ == pre.update(
                                    k,
                                    (id, (SlotData {
                                        cmd: pre[k].1.cmd,
                                        channel: pre[k].1.channel,
                                        state: SlotState::TimedOut,
                                    })),
                                )
                            }
                        },
                        _ => r == TimeoutOutcome::Ignored && *final(self) == *old(self),
                    }
                }
            }),
    {
        let idx = self.find_idx(id);
        proof {
            lemma_find_key(self.slots.entries@, id);
        }
        match idx {
            None => TimeoutOutcome::Ignored,
            Some(i) => {
                let p_opt: Option<u64> = match &self.slots.entries[i].1.state {
                    SlotState::Waiting { publishes } => Some(*publishes),
                    _ => None,
                };
                match p_opt {
                    None => TimeoutOutcome::Ignored,
                    Some(p) => {
                        if p <= self.settings.max_retries {
                            let w = WrappedCommand {
                                uuid: id,
                                cmd: self.slots.entries[i].1.cmd.duplicate(),
                            };
                            let entry = &mut self.slots.entries[i];
                            entry.1.state = SlotState::Waiting { publishes: p + 1 };
                            proof {
                                assert(self.slots.entries@
                                    =~= old(self).slots.entries@.update(
                                    i as int,
                                    self.slots.entries@[i as int],
                                ));
                            }
                            TimeoutOutcome::Republish(w)
                        } else {
                            let entry = &mut self.slots.entries[i];
                            entry.1.state = SlotState::TimedOut;
                            proof {
                                assert(self.slots.entries@
                                    =~= old(self).slots.entries@.update(
                                    i as int,
                                    self.slots.entries@[i as int],
                                ));
                            }
                            TimeoutOutcome::Expired
                        }
                    },
                }
            },
        }
    }

    /// Harvests a finished `broadcast`: removes the collector slot for `id`
    /// and returns everything it gathered, in arrival order.  `None` when no
    /// collector with that id exists.
    pub fn take_broadcast(&mut self, id: Uid) -> (r: Option<Vec<Response>>)
        requires
            old(self).wf(),
        ensures
            final(self).wf(),
            final(self).settings == old(self).settings,
            ({
                let k = find_key(old(self).slots.entries@, id);
                let pre = old(self).slots.entries@;
                if k == -1 {
                    r is None && *final(self) == *old(self)
                } else {
                    match pre[k].1.state {
                        SlotState::Collecting { responses } => {
                            &&& (r matches Some(v) && v@ == responses@)
                            &&& final(self).slots.entries@ == pre.remove(k)
                        },
                        _ => r is None && *final(self) == *old(self),
                    }
                }
            }),
    {
        let idx = self.find_idx(id);
        proof {
            lemma_find_key(self.slots.entries@, id);
        }
        match idx {
            None => None,
            Some(i) => {
                let is_collecting = match &self.slots.entries[i].1.state {
                    SlotState::Collecting { .. } => true,
                    _ => false,
                };
                if is_collecting {
                    let (_, slot) = self.slots.entries.remove(i);
                    proof {
                        old(self).slots.entries@.remove_ensures(i as int);
                    }
                    match slot.state {
                        SlotState::Collecting { responses } => Some(responses),
                        _ => {
                            proof {
                                assert(false);
                            }
                            None
                        },
                    }
                } else {
                    None
                }
            },
        }
    }

    /// Harvests a finished `execute`: `Some(Ok(..))` once the matching
    /// response arrived, `Some(Err(()))` once the slot timed out (both
    /// remove the slot); `None` while it is still waiting or unknown.
    pub fn poll_execute(&mut self, id: Uid) -> (r: Option<Result<Response, ()>>)
        requires
            old(self).wf(),
        ensures
            final(self).wf(),
            final(self).settings == old(self).settings,
            ({
                let k = find_key(old(self).slots.entries@, id);
                let pre = old(self).slots.entries@;
                if k == -1 {
                    r is None && *final(self) == *old(self)
                } else {
                    match pre[k].1.state {
                        SlotState::Resolved { response } => {
                            &&& r == Some(Result::<Response, ()>::Ok(response))
                            &&& final(self).slots.entries@ == pre.remove(k)
                        },
                        SlotState::TimedOut => {
                            &&& r == Some(Result::<Response, ()>::Err(()))
                            &&& final(self).slots.entries@ == pre.remove(k)
                        },
                        _ => r is None && *final(self) == *old(self),
                    }
                }
            }),
    {
        let idx = self.find_idx(id);
        proof {
            lemma_find_key(self.slots.entries@, id);
        }
        match idx {
            None => None,
            Some(i) => {
                let kind: u8 = match &self.slots.entries[i].1.state {
                    SlotState::Resolved { .. } => 0,
                    SlotState::TimedOut => 1,
                    _ => 2,
                };
                if kind == 0 {
                    let (_, slot) = self.slots.entries.remove(i);
                    proof {
                        old(self).slots.entries@.remove_ensures(i as int);
                    }
                    match slot.state {
                        SlotState::Resolved { response } => Some(Ok(response)),
                        _ => {
                            proof {
                                assert(false);
                            }
                            None
                        },
                    }
                } else if kind == 1 {
                    let _ = self.slots.entries.remove(i);
                    proof {
                        old(self).slots.entries@.remove_ensures(i as int);
                    }
                    Some(Err(()))
                } else {
                    None
                }
            },
        }
    }

    /// Drops the correlation slot for `id`, if any: a caller abandoning its
    /// request releases the slot, and any later matching response will be
    /// discarded.
    pub fn cancel(&mut self, id: Uid)
        requires
            old(self).wf(),
        ensures
            final(self).wf(),
            final(self).settings == old(self).settings,
            ({
                let k = find_key(old(self).slots.entries@, id);
                if k == -1 {
                    *final(self) == *old(self)
                } else {
                    final(self).slots.entries@ == old(self).slots.entries@.remove(k)
                }
            }),
            final(self).slots.spec_get(id) is None,
    {
        proof {
            lemma_find_key(self.slots.entries@, id);
        }
        let _ = self.slots.remove(id);
        proof {
            let pre = old(self).slots.entries@;
            let post = self.slots.entries@;
            let k = find_key(pre, id);
            if k != -1 {
                pre.remove_ensures(k);
                assert forall|i: int| 0 <= i < post.len()
                    implies match (#[trigger] post[i]).1.state {
                    SlotState::Waiting { publishes } => 1 <= publishes
                        <= self.settings.max_retries + 1,
                    _ => true,
                } by {
                    if i < k {
                        assert(post[i] == pre[i]);
                    } else {
                        assert(post[i] == pre[i + 1]);
                    }
                }
            }
        }
    }
}

} // verus!
