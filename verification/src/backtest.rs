//! The backtest engine's control plane: definitions, the handle registry,
//! the simulated-broker registry, the early-exit predicate, and the
//! tick-pumping loop for the pseudo-random data source.
//!
//! A backtest starts paused, so consumers can be wired up before any tick
//! flows; control events pause, resume or stop it, and a stopped backtest's
//! handle leaves the registry.  Opening the flatfile, database and channel
//! sources is transport work and lives outside; the decisions — what may
//! start, which broker takes the stream, when the pump exits — are here.

use vstd::prelude::*;
use vstd::string::StringExecFns;
use crate::commands::SimBrokerSettings;
use crate::ids::Uid;
use crate::registry::Registry;
use crate::tick::Tick;

verus! {

/// How the output of data is timed.
#[derive(PartialEq, Debug, Clone)]
pub enum BacktestType {
    Fast { delay_ms: u64 },
    Live,
}

/// Where the data driving the backtest comes from.
#[derive(PartialEq, Debug, Clone)]
pub enum DataSource {
    Flatfile,
    RedisChannel { host: String, channel: String },
    Postgres,
    Random,
}

/// Where the backtest's ticks are sent.
#[derive(PartialEq, Debug, Clone)]
pub enum DataDest {
    RedisChannel { host: String, channel: String },
    Console,
    Null,
    SimBroker { uuid: Uid },
}

/// The full description of a backtest to run.
#[derive(PartialEq, Debug, Clone)]
pub struct BacktestDefinition {
    pub start_time: Option<u64>,
    pub max_tick_n: Option<u64>,
    pub max_timestamp: Option<u64>,
    pub symbol: String,
    pub backtest_type: BacktestType,
    pub data_source: DataSource,
    pub data_dest: DataDest,
    pub broker_settings: SimBrokerSettings,
}

/// A control event for a running backtest.
#[derive(PartialEq, Eq, Structural, Debug, Clone, Copy)]
pub enum BacktestCommand {
    Pause,
    Resume,
    Stop,
}

/// Where a backtest stands in its lifecycle.  Every backtest starts paused.
#[derive(PartialEq, Eq, Structural, Debug, Clone, Copy)]
pub enum BacktestState {
    Paused,
    Running,
    Stopped,
}

/// The state a control event moves a backtest to.
pub open spec fn spec_apply_control(cmd: BacktestCommand) -> BacktestState {
    match cmd {
        BacktestCommand::Pause => BacktestState::Paused,
        BacktestCommand::Resume => BacktestState::Running,
        BacktestCommand::Stop => BacktestState::Stopped,
    }
}

/// A registered backtest, as the engine tracks it.
#[derive(PartialEq, Debug, Clone)]
pub struct BacktestHandle {
    pub symbol: String,
    pub backtest_type: BacktestType,
    pub data_source: DataSource,
    pub endpoint: DataDest,
    pub state: BacktestState,
}

/// An in-process simulated broker, as far as the engine is concerned: its
/// settings and which symbols already had a tick stream registered (each
/// symbol may be registered at most once).
#[derive(PartialEq, Debug, Clone)]
pub struct SimBroker {
    pub settings: SimBrokerSettings,
    pub symbols: Vec<String>,
}

impl SimBroker {
    pub open spec fn spec_has_symbol(self, sym: Seq<char>) -> bool {
        exists|i: int| 0 <= i < self.symbols@.len() && (#[trigger] self.symbols@[i])@ == sym
    }

    /// Whether a tick stream was already registered for `symbol`.
    pub fn has_symbol(&self, symbol: &String) -> (r: bool)
        ensures
            r == self.spec_has_symbol(symbol@),
    {
        let n = self.symbols.len();
        let mut i: usize = 0;
        while i < n
            invariant
                n == self.symbols@.len(),
                i <= n,
                forall|j: int| 0 <= j < i ==> (#[trigger] self.symbols@[j])@ != symbol@,
            decreases n - i,
        {
            if self.symbols[i] == *symbol {
                return true;
            }
            i += 1;
        }
        false
    }
}

/// Whether a backtest has met a stop condition after delivering its
/// `count`-th tick `t`: the tick budget is exhausted, or the timestamp bound
/// is reached.  Both bounds are inclusive: the `max_tick_n`-th tick is the
/// last one delivered.
pub open spec fn spec_early_exit(t: Tick, def: BacktestDefinition, count: u64) -> bool {
    (match def.max_tick_n {
        Some(n) => n <= count,
        None => false,
    }) || (match def.max_timestamp {
        Some(m) => m <= t.timestamp,
        None => false,
    })
}

/// Returns true when the backtest has met a stop condition.
pub fn check_early_exit(t: &Tick, def: &BacktestDefinition, i: u64) -> (r: bool)
    ensures
        r == spec_early_exit(*t, *def, i),
{
    let n_hit = match def.max_tick_n {
        Some(n) => n <= i,
        None => false,
    };
    let ts_hit = match def.max_timestamp {
        Some(m) => m <= t.timestamp,
        None => false,
    };
    n_hit || ts_hit
}

/// Relies on `rand::random::<u64>`: a pseudo-random 64-bit value.  Nothing
/// is assumed about which value comes back.
#[verifier::external_body]
fn random_u64() -> u64 {
    rand::random::<u64>()
}

/// A pseudo-random tick with the given timestamp and strictly positive
/// bid and ask.
pub fn random_tick(timestamp: u64) -> (r: Tick)
    ensures
        r.timestamp == timestamp,
        1 <= r.bid <= 0xffff_ffff,
        1 <= r.ask <= 0xffff_ffff,
{
    let bid = random_u64() % 0xffff_ffff + 1;
    let ask = random_u64() % 0xffff_ffff + 1;
    Tick { bid, ask, timestamp }
}

/// How many ticks the pseudo-random source delivers before the exit
/// predicate stops the backtest, given that its timestamps run 1, 2, 3, ….
/// The first tick is delivered before the predicate is consulted, so even a
/// zero bound yields one tick.
pub open spec fn spec_exit_count(def: BacktestDefinition) -> u64 {
    let a = match def.max_tick_n {
        Some(n) => n,
        None => u64::MAX,
    };
    let b = match def.max_timestamp {
        Some(m) => m,
        None => u64::MAX,
    };
    let c = if a <= b {
        a
    } else {
        b
    };
    if c == 0 {
        1
    } else {
        c
    }
}

/// Pumps the pseudo-random tick source into a vector until the exit
/// predicate fires: exactly `spec_exit_count(def)` ticks, timestamps
/// 1, 2, 3, …, the exit predicate false after every tick but the last.
pub fn run_random_backtest(def: &BacktestDefinition) -> (r: Vec<Tick>)
    requires
        def.max_tick_n is Some || def.max_timestamp is Some,
    ensures
        r@.len() == spec_exit_count(*def),
        forall|i: int| 0 <= i < r@.len() ==> (#[trigger] r@[i]).timestamp == i + 1,
        forall|i: int| 0 <= i < r@.len() ==> 1 <= (#[trigger] r@[i]).bid <= 0xffff_ffff
            && 1 <= r@[i].ask <= 0xffff_ffff,
        forall|i: int| 0 <= i < r@.len() - 1
            ==> !spec_early_exit(#[trigger] r@[i], *def, (i + 1) as u64),
        spec_early_exit(r@[r@.len() - 1], *def, r@.len() as u64),
{
    let mut out: Vec<Tick> = Vec::new();
    let mut count: u64 = 0;
    let mut done = false;
    while !done
        invariant
            def.max_tick_n is Some || def.max_timestamp is Some,
            count == out@.len(),
            count <= spec_exit_count(*def),
            !done ==> count < spec_exit_count(*def),
            done ==> count == spec_exit_count(*def) && count >= 1,
            forall|i: int| 0 <= i < out@.len() ==> (#[trigger] out@[i]).timestamp == i + 1,
            forall|i: int| 0 <= i < out@.len() ==> 1 <= (#[trigger] out@[i]).bid <= 0xffff_ffff
                && 1 <= out@[i].ask <= 0xffff_ffff,
            forall|i: int| 0 <= i < out@.len() - 1
                ==> !spec_early_exit(#[trigger] out@[i], *def, (i + 1) as u64),
            done ==> spec_early_exit(out@[out@.len() - 1], *def, out@.len() as u64),
        decreases spec_exit_count(*def) - count,
    {
        let t = random_tick(count + 1);
        out.push(t);
        count = count + 1;
        if check_early_exit(&t, def, count) {
            done = true;
        }
    }
    out
}

/// The backtest engine: its own instance id, the handles of the backtests
/// it runs, and the simulated brokers it manages.
pub struct Backtester {
    pub uuid: Uid,
    pub running_backtests: Registry<BacktestHandle>,
    pub simbrokers: Registry<SimBroker>,
}

impl Backtester {
    /// Registries are uniquely keyed.
    pub open spec fn wf0(self) -> bool {
        &&& self.running_backtests.wf()
        &&& self.simbrokers.wf()
    }

    /// A handle exists in the registry only while its backtest is running or
    /// paused — never once it is stopped.
    pub open spec fn all_live(self) -> bool {
        forall|i: int| 0 <= i < self.running_backtests.entries@.len()
            ==> (#[trigger] self.running_backtests.entries@[i]).1.state != BacktestState::Stopped
    }

    /// Every handle but possibly the one keyed `id` is live.
    pub open spec fn live_except(self, id: Uid) -> bool {
        forall|i: int| 0 <= i < self.running_backtests.entries@.len()
            ==> (#[trigger] self.running_backtests.entries@[i]).0 == id
                || self.running_backtests.entries@[i].1.state != BacktestState::Stopped
    }

    pub open spec fn wf(self) -> bool {
        self.wf0() && self.all_live()
    }

    /// Whether `start_backtest` is owed success: always, except for a
    /// simulated-broker destination whose broker is unknown or already has
    /// a stream for this symbol.
    pub open spec fn spec_dest_ok(self, dest: DataDest, symbol: Seq<char>) -> bool {
        match dest {
            DataDest::SimBroker { uuid } => match self.simbrokers.spec_get(uuid) {
                Some(b) => !b.spec_has_symbol(symbol),
                None => false,
            },
            _ => true,
        }
    }

    /// A fresh engine with no running backtests and no simulated brokers.
    pub fn new() -> (r: Backtester)
        ensures
            r.wf(),
            r.running_backtests.entries@.len() == 0,
            r.simbrokers.entries@.len() == 0,
            (r.uuid.bits >> 76) & 0xf == 4,
            (r.uuid.bits >> 62) & 0x3 == 2,
    {
        Backtester {
            uuid: Uid::fresh(),
            running_backtests: Registry::new(),
            simbrokers: Registry::new(),
        }
    }

    /// Creates a simulated broker managed by this engine and returns its id.
    pub fn init_simbroker(&mut self, settings: SimBrokerSettings) -> (r: Uid)
        requires
            old(self).wf(),
        ensures
            final(self).wf(),
            final(self).uuid == old(self).uuid,
            final(self).running_backtests == old(self).running_backtests,
            final(self).simbrokers.spec_get(r) matches Some(b) && b.settings == settings
                && b.symbols@.len() == 0,
            forall|u: Uid| u != r ==> #[trigger] final(self).simbrokers.spec_get(u)
                == old(self).simbrokers.spec_get(u),
    {
        let uuid = Uid::fresh();
        let simbroker = SimBroker { settings, symbols: Vec::new() };
        let ghost pre = self.simbrokers.entries@;
        self.simbrokers.insert(uuid, simbroker);
        proof {
            assert forall|u: Uid| u != uuid implies #[trigger] self.simbrokers.spec_get(u)
                == old(self).simbrokers.spec_get(u) by {
                crate::registry::lemma_insert_preserves_others(
                    pre,
                    self.simbrokers.entries@,
                    uuid,
                    simbroker,
                    u,
                );
            }
        }
        uuid
    }

    /// Starts a backtest: checks the destination (a simulated-broker
    /// destination must name a known broker without a stream for this
    /// symbol), registers the stream with that broker, and registers a
    /// paused handle under a fresh id.  Succeeds exactly when the
    /// destination check passes.
    pub fn start_backtest(&mut self, definition: BacktestDefinition) -> (r: Result<Uid, String>)
        requires
            old(self).wf(),
        ensures
            final(self).wf(),
            final(self).uuid == old(self).uuid,
            r is Ok <==> old(self).spec_dest_ok(definition.data_dest, definition.symbol@),
            r is Err ==> *final(self) == *old(self),
            (definition.data_dest matches DataDest::SimBroker { uuid: b }
                && old(self).simbrokers.spec_get(b) is None)
                ==> (r matches Err(e) && e@ == "No SimBroker running with that Uuid!"@),
            (definition.data_dest matches DataDest::SimBroker { uuid: b }
                && (old(self).simbrokers.spec_get(b) matches Some(br)
                    && br.spec_has_symbol(definition.symbol@)))
                ==> (r matches Err(e)
                    && e@ == "A tickstream is already registered for that symbol!"@),
            r matches Ok(id) ==> (final(self).running_backtests.spec_get(id) matches Some(h)
                && h.symbol == definition.symbol
                && h.backtest_type == definition.backtest_type
                && h.data_source == definition.data_source
                && h.endpoint == definition.data_dest
                && h.state == BacktestState::Paused),
            r matches Ok(id) ==> match definition.data_dest {
                DataDest::SimBroker { uuid: b_id } => {
                    &&& (final(self).simbrokers.spec_get(b_id) matches Some(b)
                        && old(self).simbrokers.spec_get(b_id) matches Some(b0)
                        && b.settings == b0.settings
                        && b.symbols@ == b0.symbols@.push(definition.symbol))
                },
                _ => final(self).simbrokers == old(self).simbrokers,
            },
    {
        let broker_id: Option<Uid> = match &definition.data_dest {
            DataDest::SimBroker { uuid } => Some(*uuid),
            _ => None,
        };
        if let Some(b_id) = broker_id {
            let known = match self.simbrokers.get(b_id) {
                Some(b) => {
                    if b.has_symbol(&definition.symbol) {
                        return Err(String::from_str(
                            "A tickstream is already registered for that symbol!",
                        ));
                    }
                    true
                },
                None => false,
            };
            if !known {
                return Err(String::from_str("No SimBroker running with that Uuid!"));
            }
            // register the tick stream with the broker: this symbol is now taken
            let idx = self.simbroker_index(b_id);
            proof {
                crate::registry::lemma_find_key(self.simbrokers.entries@, b_id);
            }
            let i = idx.unwrap();
            let entry = &mut self.simbrokers.entries[i];
            entry.1.symbols.push(definition.symbol.clone());
            proof {
                let pre = old(self).simbrokers.entries@;
                let post = self.simbrokers.entries@;
                assert(post =~= pre.update(i as int, post[i as int]));
                assert(post[i as int].0 == pre[i as int].0);
                assert forall|a: int, b: int| 0 <= a < b < post.len()
                    implies (#[trigger] post[a]).0 != (#[trigger] post[b]).0 by {
                    assert(post[a].0 == pre[a].0);
                    assert(post[b].0 == pre[b].0);
                }
                crate::registry::lemma_find_key(post, b_id);
            }
        }
        let uuid = Uid::fresh();
        let handle = BacktestHandle {
            symbol: definition.symbol,
            backtest_type: definition.backtest_type,
            data_source: definition.data_source,
            endpoint: definition.data_dest,
            state: BacktestState::Paused,
        };
        let ghost pre_bt = self.running_backtests.entries@;
        self.running_backtests.insert(uuid, handle);
        proof {
            crate::registry::lemma_find_key(pre_bt, uuid);
            let k = crate::registry::find_key(pre_bt, uuid);
            let post = self.running_backtests.entries@;
            assert forall|i: int| 0 <= i < post.len()
                implies (#[trigger] post[i]).1.state != BacktestState::Stopped by {
                if k == -1 {
                    if i < pre_bt.len() {
                        assert(post[i] == pre_bt[i]);
                    }
                } else {
                    if i != k {
                        assert(post[i] == pre_bt[i]);
                    }
                }
            }
        }
        Ok(uuid)
    }

    /// The registry index of the broker keyed `id`, if any.
    fn simbroker_index(&self, id: Uid) -> (r: Option<usize>)
        ensures
            match r {
                Some(i) => i as int == crate::registry::find_key(self.simbrokers.entries@, id),
                None => crate::registry::find_key(self.simbrokers.entries@, id) == -1,
            },
    {
        let n = self.simbrokers.entries.len();
        let mut i: usize = 0;
        while i < n
            invariant
                n == self.simbrokers.entries@.len(),
                i <= n,
                forall|j: int| 0 <= j < i ==> (#[trigger] self.simbrokers.entries@[j]).0 != id,
            decreases n - i,
        {
            if self.simbrokers.entries[i].0 == id {
                proof {
                    crate::registry::lemma_find_key(self.simbrokers.entries@, id);
                }
                return Some(i);
            }
            i += 1;
        }
        proof {
            crate::registry::lemma_find_key(self.simbrokers.entries@, id);
        }
        None
    }

    /// Removes a stopped backtest's handle from the registry.
    pub fn remove_backtest(&mut self, uuid: &Uid)
        requires
            old(self).wf0(),
        ensures
            final(self).wf0(),
            final(self).uuid == old(self).uuid,
            final(self).simbrokers == old(self).simbrokers,
            final(self).running_backtests.spec_get(*uuid) is None,
            ({
                let k = crate::registry::find_key(old(self).running_backtests.entries@, *uuid);
                if k == -1 {
                    final(self).running_backtests == old(self).running_backtests
                } else {
                    final(self).running_backtests.entries@
                        == old(self).running_backtests.entries@.remove(k)
                }
            }),
            old(self).live_except(*uuid) ==> final(self).all_live(),
    {
        proof {
            crate::registry::lemma_find_key(self.running_backtests.entries@, *uuid);
        }
        let _ = self.running_backtests.remove(*uuid);
        proof {
            let pre = old(self).running_backtests.entries@;
            let post = self.running_backtests.entries@;
            let k = crate::registry::find_key(pre, *uuid);
            if k != -1 {
                pre.remove_ensures(k);
                if old(self).live_except(*uuid) {
                    assert forall|i: int| 0 <= i < post.len()
                        implies (#[trigger] post[i]).1.state != BacktestState::Stopped by {
                        if i < k {
                            assert(post[i] == pre[i]);
                        } else {
                            assert(post[i] == pre[i + 1]);
                        }
                    }
                }
            }
        }
    }

    /// Forwards a control event to a managed backtest: its handle moves to
    /// the event's target state.  `Err(())` exactly when no backtest is
    /// registered under that id.  After a `Stop` the caller removes the
    /// handle (see `remove_backtest`); the other events leave it in place.
    pub fn send_backtest_cmd(&mut self, uuid: &Uid, cmd: BacktestCommand) -> (r: Result<(), ()>)
        requires
            old(self).wf(),
        ensures
            final(self).wf0(),
            final(self).uuid == old(self).uuid,
            final(self).simbrokers == old(self).simbrokers,
            final(self).live_except(*uuid),
            cmd != BacktestCommand::Stop ==> final(self).all_live(),
            r is Ok <==> old(self).running_backtests.spec_get(*uuid) is Some,
            ({
                let k = crate::registry::find_key(old(self).running_backtests.entries@, *uuid);
                let pre = old(self).running_backtests.entries@;
                if k == -1 {
                    *final(self) == *old(self)
                } else {
                    final(self).running_backtests.entries@ == pre.update(
                        k,
                        (*uuid, (BacktestHandle {
                            symbol: pre[k].1.symbol,
                            backtest_type: pre[k].1.backtest_type,
                            data_source: pre[k].1.data_source,
                            endpoint: pre[k].1.endpoint,
                            state: spec_apply_control(cmd),
                        })),
                    )
                }
            }),
    {
        let idx = self.backtest_index(*uuid);
        proof {
            crate::registry::lemma_find_key(self.running_backtests.entries@, *uuid);
        }
        match idx {
            None => Err(()),
            Some(i) => {
                let entry = &mut self.running_backtests.entries[i];
                entry.1.state = match cmd {
                    BacktestCommand::Pause => BacktestState::Paused,
                    BacktestCommand::Resume => BacktestState::Running,
                    BacktestCommand::Stop => BacktestState::Stopped,
                };
                proof {
                    assert(self.running_backtests.entries@
                        =~= old(self).running_backtests.entries@.update(
                        i as int,
                        self.running_backtests.entries@[i as int],
                    ));
                }
                Ok(())
            },
        }
    }

    /// The registry index of the backtest keyed `id`, if any.
    fn backtest_index(&self, id: Uid) -> (r: Option<usize>)
        ensures
            match r {
                Some(i) => i as int == crate::registry::find_key(
                    self.running_backtests.entries@,
                    id,
                ),
                None => crate::registry::find_key(self.running_backtests.entries@, id) == -1,
            },
    {
        let n = self.running_backtests.entries.len();
        let mut i: usize = 0;
        while i < n
            invariant
                n == self.running_backtests.entries@.len(),
                i <= n,
                forall|j: int| 0 <= j < i
                    ==> (#[trigger] self.running_backtests.entries@[j]).0 != id,
            decreases n - i,
        {
            if self.running_backtests.entries[i].0 == id {
                proof {
                    crate::registry::lemma_find_key(self.running_backtests.entries@, id);
                }
                return Some(i);
            }
            i += 1;
        }
        proof {
            crate::registry::lemma_find_key(self.running_backtests.entries@, id);
        }
        None
    }
}

} // verus!
