//! The instance supervisor's decision logic: the living-instance list, the
//! straggler sweep at bootstrap, the heartbeat's membership reconciliation,
//! and the spawn commands for child modules.
//!
//! Spawning a process, publishing on the transport and sleeping between
//! heartbeats happen outside; the supervisor decides here which process to
//! spawn with which arguments, which responder to kill, which instance to
//! probe, and how each reply changes the membership view.  A missed `Pong`
//! alone never kills an instance: a follow-up `Type` query gates the death
//! declaration.

use vstd::prelude::*;
use vstd::string::StringExecFns;
use crate::bus::{CommandServer, SlotState};
use crate::commands::{Command, Response, WrappedCommand};
use crate::ids::{push_uid_chars, spec_uid_chars, uid_hyphenated, Uid};
use crate::json::{enc_jstr, enc_uid};
use crate::messages::{enc_f2};
use crate::strutil::{chars_to_string, push_str_chars};
use crate::wire::{push_jstr, push_uidv};

verus! {

/// An instance of a platform module: its kind and its id.
#[derive(PartialEq, Debug, Clone)]
pub struct Instance {
    pub instance_type: String,
    pub uuid: Uid,
}

/// The supervisor's own configuration.
#[derive(PartialEq, Debug, Clone)]
pub struct SpawnerSettings {
    pub kill_stragglers: bool,
    pub dist_path: String,
    pub node_binary_path: String,
}

/// A process to launch: the executable and its arguments.
#[derive(PartialEq, Debug, Clone)]
pub struct SpawnSpec {
    pub path: String,
    pub args: Vec<String>,
}

/// Whether `r` is a `Pong` whose first argument is the hyphenated id text.
pub open spec fn spec_pong_has_id(r: Response, id: Seq<char>) -> bool {
    match r {
        Response::Pong { args } => args@.len() >= 1 && args@[0]@ == id,
        _ => false,
    }
}

/// Whether some response in `rs` is a `Pong` from the given instance.
pub open spec fn spec_present(inst: Instance, rs: Seq<Response>) -> bool {
    exists|i: int| 0 <= i < rs.len() && spec_pong_has_id(#[trigger] rs[i], spec_uid_chars(
        inst.uuid.bits,
    ))
}

/// Whether an instance in `known` carries the hyphenated id text `id`.
pub open spec fn spec_known_id(known: Seq<Instance>, id: Seq<char>) -> bool {
    exists|i: int| 0 <= i < known.len() && spec_uid_chars((#[trigger] known[i]).uuid.bits) == id
}

/// Whether `r` is a straggler's reply: a well-formed `Pong` from a responder
/// the supervisor does not know.
pub open spec fn spec_is_straggler(r: Response, known: Seq<Instance>) -> bool {
    match r {
        Response::Pong { args } => args@.len() >= 1 && !spec_known_id(known, args@[0]@),
        _ => false,
    }
}

/// The ids (hyphenated text) of the stragglers among `rs`, in order.
pub open spec fn spec_straggler_ids(rs: Seq<Response>, known: Seq<Instance>) -> Seq<Seq<char>>
    decreases rs.len(),
{
    if rs.len() == 0 {
        Seq::empty()
    } else {
        let front = spec_straggler_ids(rs.drop_last(), known);
        let last = rs[rs.len() - 1];
        if spec_is_straggler(last, known) {
            front.push(match last {
                Response::Pong { args } => args@[0]@,
                _ => Seq::empty(),
            })
        } else {
            front
        }
    }
}

/// The instance supervisor: its own id, the instances it believes alive
/// (itself included), its configuration, and its command bus client.
pub struct InstanceManager {
    pub uuid: Uid,
    pub living: Vec<Instance>,
    pub settings: SpawnerSettings,
    pub cs: CommandServer,
}

impl InstanceManager {
    pub open spec fn wf(self) -> bool {
        self.cs.wf()
    }

    /// A fresh supervisor with an empty membership view.
    pub fn new(settings: SpawnerSettings, cs: CommandServer) -> (r: InstanceManager)
        requires
            cs.wf(),
        ensures
            r.wf(),
            r.living@.len() == 0,
            r.settings == settings,
            r.cs == cs,
    {
        InstanceManager { uuid: Uid::fresh(), living: Vec::new(), settings, cs }
    }

    /// Adds an instance to the living list.
    pub fn add_instance(&mut self, inst: Instance)
        requires
            old(self).wf(),
        ensures
            final(self).wf(),
            final(self).living@ == old(self).living@.push(inst),
            final(self).uuid == old(self).uuid,
            final(self).settings == old(self).settings,
            final(self).cs == old(self).cs,
    {
        self.living.push(inst);
    }

    /// Removes the instance with the given id from the living list — the
    /// last one, when several carry it.  Nothing changes when none does.
    pub fn remove_instance(&mut self, uuid: Uid)
        requires
            old(self).wf(),
        ensures
            final(self).wf(),
            final(self).uuid == old(self).uuid,
            final(self).settings == old(self).settings,
            final(self).cs == old(self).cs,
            (forall|i: int| 0 <= i < old(self).living@.len()
                ==> (#[trigger] old(self).living@[i]).uuid != uuid) ==> *final(self) == *old(self),
            (exists|i: int| 0 <= i < old(self).living@.len()
                && (#[trigger] old(self).living@[i]).uuid == uuid)
                ==> exists|k: int| 0 <= k < old(self).living@.len()
                    && (#[trigger] old(self).living@[k]).uuid == uuid
                    && (forall|j: int| k < j < old(self).living@.len()
                        ==> (#[trigger] old(self).living@[j]).uuid != uuid)
                    && final(self).living@ == old(self).living@.remove(k),
    {
        let n = self.living.len();
        let mut found: Option<usize> = None;
        let mut i: usize = 0;
        while i < n
            invariant
                n == self.living@.len(),
                *self == *old(self),
                i <= n,
                match found {
                    Some(k) => k < i && self.living@[k as int].uuid == uuid
                        && forall|j: int| k < j < i
                            ==> (#[trigger] self.living@[j]).uuid != uuid,
                    None => forall|j: int| 0 <= j < i
                        ==> (#[trigger] self.living@[j]).uuid != uuid,
                },
            decreases n - i,
        {
            if self.living[i].uuid == uuid {
                found = Some(i);
            }
            i += 1;
        }
        match found {
            Some(k) => {
                self.living.remove(k);
                proof {
                    assert(0 <= k < old(self).living@.len()
                        && old(self).living@[k as int].uuid == uuid);
                }
            },
            None => {},
        }
    }

    /// The first known instance that no `Pong` in `responses` answered for,
    /// if any.
    pub fn get_missing_instance(&self, responses: &Vec<Response>) -> (r: Option<Instance>)
        ensures
            match r {
                None => forall|i: int| 0 <= i < self.living@.len()
                    ==> spec_present(#[trigger] self.living@[i], responses@),
                Some(inst) => exists|k: int| 0 <= k < self.living@.len()
                    && (#[trigger] self.living@[k]).uuid == inst.uuid
                    && self.living@[k].instance_type@ == inst.instance_type@
                    && !spec_present(self.living@[k], responses@)
                    && forall|j: int| 0 <= j < k
                        ==> spec_present(#[trigger] self.living@[j], responses@),
            },
    {
        let n = self.living.len();
        let mut i: usize = 0;
        while i < n
            invariant
                n == self.living@.len(),
                i <= n,
                forall|j: int| 0 <= j < i
                    ==> spec_present(#[trigger] self.living@[j], responses@),
            decreases n - i,
        {
            let inst = &self.living[i];
            if !self.response_present(inst, responses) {
                let copy = Instance { instance_type: inst.instance_type.clone(), uuid: inst.uuid };
                proof {
                    assert(0 <= i < self.living@.len() && self.living@[i as int].uuid == copy.uuid
                        && self.living@[i as int].instance_type@ == copy.instance_type@
                        && !spec_present(self.living@[i as int], responses@));
                }
                return Some(copy);
            }
            i += 1;
        }
        None
    }

    /// Whether some `Pong` in `responses` carries this instance's id.
    fn response_present(&self, inst: &Instance, responses: &Vec<Response>) -> (r: bool)
        ensures
            r == spec_present(*inst, responses@),
    {
        let id_text = uid_hyphenated(inst.uuid);
        let m = responses.len();
        let mut j: usize = 0;
        while j < m
            invariant
                m == responses@.len(),
                id_text@ == spec_uid_chars(inst.uuid.bits),
                j <= m,
                forall|t: int| 0 <= t < j ==> !spec_pong_has_id(
                    #[trigger] responses@[t],
                    spec_uid_chars(inst.uuid.bits),
                ),
            decreases m - j,
        {
            match &responses[j] {
                Response::Pong { args } => {
                    if args.len() >= 1 && args[0] == id_text {
                        proof {
                            assert(spec_pong_has_id(
                                responses@[j as int],
                                spec_uid_chars(inst.uuid.bits),
                            ));
                        }
                        return true;
                    }
                },
                _ => {},
            }
            j += 1;
        }
        false
    }

    /// One heartbeat reconciliation step: the first instance that missed the
    /// `Ping` round is deregistered and handed back, to be probed with a
    /// `Type` query before any death declaration.  No kill is issued here.
    pub fn heartbeat_select(&mut self, responses: &Vec<Response>) -> (r: Option<Instance>)
        requires
            old(self).wf(),
        ensures
            final(self).wf(),
            final(self).uuid == old(self).uuid,
            final(self).settings == old(self).settings,
            final(self).cs == old(self).cs,
            r is None ==> *final(self) == *old(self) && forall|i: int|
                0 <= i < old(self).living@.len()
                    ==> spec_present(#[trigger] old(self).living@[i], responses@),
            r matches Some(inst) ==> !spec_present(inst, responses@)
                && exists|k: int| 0 <= k < old(self).living@.len()
                    && (#[trigger] old(self).living@[k]).uuid == inst.uuid
                    && final(self).living@ == old(self).living@.remove(k),
    {
        let missing = self.get_missing_instance(responses);
        match missing {
            None => None,
            Some(inst) => {
                self.remove_instance(inst.uuid);
                proof {
                    let pre = old(self).living@;
                    let k0 = choose|k: int| 0 <= k < pre.len()
                        && (#[trigger] pre[k]).uuid == inst.uuid
                        && pre[k].instance_type@ == inst.instance_type@
                        && !spec_present(pre[k], responses@);
                    assert(spec_present(inst, responses@) ==> spec_present(
                        pre[k0],
                        responses@,
                    ));
                }
                Some(inst)
            },
        }
    }

    /// Applies the result of the confirming `Type` probe for an instance
    /// that missed a heartbeat: an `Info` reply means it was alive after all
    /// and it is reinstated (under the kind the reply names); anything else
    /// confirms it dead, and the membership view keeps it out.
    pub fn apply_probe(&mut self, inst: Instance, reply: Option<Response>)
        requires
            old(self).wf(),
        ensures
            final(self).wf(),
            final(self).uuid == old(self).uuid,
            final(self).settings == old(self).settings,
            final(self).cs == old(self).cs,
            match reply {
                Some(Response::Info { info }) => final(self).living@ == old(self).living@.push(
                    (Instance { instance_type: info, uuid: inst.uuid }),
                ),
                _ => *final(self) == *old(self),
            },
    {
        match reply {
            Some(Response::Info { info }) => {
                self.living.push(Instance { instance_type: info, uuid: inst.uuid });
            },
            _ => {},
        }
    }

    /// The bootstrap straggler sweep: every well-formed `Pong` from a
    /// responder the supervisor does not know earns a `Kill`, executed over
    /// the bus on the responder's personal channel (its id).  Returns the
    /// wrapped kill commands with their channels, one per straggler, in
    /// order.
    pub fn straggler_kills(&mut self, responses: &Vec<Response>) -> (r: Vec<(String, WrappedCommand)>)
        requires
            old(self).wf(),
        ensures
            final(self).wf(),
            final(self).uuid == old(self).uuid,
            final(self).settings == old(self).settings,
            final(self).living == old(self).living,
            ({
                let ids = spec_straggler_ids(responses@, old(self).living@);
                &&& r@.len() == ids.len()
                &&& forall|i: int| 0 <= i < r@.len() ==> (#[trigger] r@[i]).0@ == ids[i]
                    && r@[i].1.cmd == Command::Kill
            }),
    {
        let mut out: Vec<(String, WrappedCommand)> = Vec::new();
        let n = responses.len();
        let mut i: usize = 0;
        while i < n
            invariant
                old(self).wf(),
                n == responses@.len(),
                i <= n,
                self.wf(),
                self.uuid == old(self).uuid,
                self.settings == old(self).settings,
                self.living == old(self).living,
                ({
                    let ids = spec_straggler_ids(
                        responses@.subrange(0, i as int),
                        old(self).living@,
                    );
                    &&& out@.len() == ids.len()
                    &&& forall|t: int| 0 <= t < out@.len() ==> (#[trigger] out@[t]).0@ == ids[t]
                        && out@[t].1.cmd == Command::Kill
                }),
            decreases n - i,
        {
            let ghost pre_ids = spec_straggler_ids(responses@.subrange(0, i as int), self.living@);
            match &responses[i] {
                Response::Pong { args } => {
                    if args.len() >= 1 {
                        if !self.knows_id(&args[0]) {
                            let channel = args[0].clone();
                            let w = self.cs.execute_start(Command::Kill, args[0].clone());
                            out.push((channel, w));
                        }
                    }
                },
                _ => {},
            }
            proof {
                let cur = responses@.subrange(0, (i + 1) as int);
                assert(cur.drop_last() =~= responses@.subrange(0, i as int));
                assert(cur[cur.len() - 1] == responses@[i as int]);
            }
            i += 1;
        }
        proof {
            assert(responses@.subrange(0, n as int) =~= responses@);
        }
        out
    }

    /// Whether a known instance carries this hyphenated id text.
    fn knows_id(&self, id_text: &String) -> (r: bool)
        ensures
            r == spec_known_id(self.living@, id_text@),
    {
        let n = self.living.len();
        let mut i: usize = 0;
        while i < n
            invariant
                n == self.living@.len(),
                i <= n,
                forall|j: int| 0 <= j < i
                    ==> spec_uid_chars((#[trigger] self.living@[j]).uuid.bits) != id_text@,
            decreases n - i,
        {
            let mine = uid_hyphenated(self.living[i].uuid);
            if mine == *id_text {
                return true;
            }
            i += 1;
        }
        false
    }

    /// Wraps a `Ping` for the broadcast that opens every heartbeat round,
    /// registering an empty collector slot under the fresh correlation id;
    /// the matching replies then accumulate there, in arrival order, until
    /// the caller harvests them with `take_broadcast`.
    pub fn ping_all(&mut self, control_channel: String) -> (r: WrappedCommand)
        requires
            old(self).wf(),
        ensures
            final(self).wf(),
            final(self).uuid == old(self).uuid,
            final(self).settings == old(self).settings,
            final(self).living == old(self).living,
            r.cmd == Command::Ping,
            final(self).cs.slots.spec_get(r.uuid) matches Some(s) && s.cmd == Command::Ping
                && s.channel == control_channel
                && (s.state matches SlotState::Collecting { responses }
                    && responses@.len() == 0),
    {
        self.cs.broadcast_start(Command::Ping, control_channel)
    }

    /// Kills every instance the supervisor manages: the living list empties
    /// and one `Kill` per instance is executed over the bus, addressed to
    /// the instance's personal channel.
    pub fn kill_all(&mut self) -> (r: (Response, Vec<(String, WrappedCommand)>))
        requires
            old(self).wf(),
        ensures
            final(self).wf(),
            final(self).uuid == old(self).uuid,
            final(self).settings == old(self).settings,
            final(self).living@.len() == 0,
            r.0 == Response::Okay,
            r.1@.len() == old(self).living@.len(),
            forall|i: int| 0 <= i < r.1@.len() ==> (#[trigger] r.1@[i]).0@ == spec_uid_chars(
                old(self).living@[i].uuid.bits,
            ) && r.1@[i].1.cmd == Command::Kill,
    {
        let mut out: Vec<(String, WrappedCommand)> = Vec::new();
        let n = self.living.len();
        let mut i: usize = 0;
        while i < n
            invariant
                n == old(self).living@.len(),
                self.living == old(self).living,
                self.uuid == old(self).uuid,
                self.settings == old(self).settings,
                self.wf(),
                i <= n,
                out@.len() == i,
                forall|t: int| 0 <= t < i ==> (#[trigger] out@[t]).0@ == spec_uid_chars(
                    old(self).living@[t].uuid.bits,
                ) && out@[t].1.cmd == Command::Kill,
            decreases n - i,
        {
            let channel = uid_hyphenated(self.living[i].uuid);
            let channel2 = uid_hyphenated(self.living[i].uuid);
            let w = self.cs.execute_start(Command::Kill, channel2);
            out.push((channel, w));
            i += 1;
        }
        self.living.clear();
        (Response::Okay, out)
    }

    /// The spawn command for a market-maker module: the node binary runs the
    /// manager script, with a fresh instance id as its argument.
    pub fn spawn_mm(&mut self) -> (r: (Response, SpawnSpec))
        requires
            old(self).wf(),
        ensures
            final(self).wf(),
            *final(self) == *old(self),
            r.0 == Response::Okay,
            r.1.path@ == old(self).settings.node_binary_path@,
            r.1.args@.len() == 2,
            r.1.args@[0]@ == old(self).settings.dist_path@ + "mm/manager.js"@,
            exists|b: u128| (#[trigger] r.1.args@[1]@) == spec_uid_chars(b),
    {
        let mod_uuid = Uid::fresh();
        let path = self.settings.dist_path.clone().concat("mm/manager.js");
        let mut args: Vec<String> = Vec::new();
        args.push(path);
        args.push(uid_hyphenated(mod_uuid));
        proof {
            assert(args@[1]@ == spec_uid_chars(mod_uuid.bits));
        }
        (Response::Okay, SpawnSpec { path: self.settings.node_binary_path.clone(), args })
    }

    /// The spawn command for a tick parser bound to `symbol`.
    pub fn spawn_tick_parser(&mut self, symbol: String) -> (r: (Response, SpawnSpec))
        requires
            old(self).wf(),
        ensures
            final(self).wf(),
            *final(self) == *old(self),
            r.0 == Response::Okay,
            r.1.path@ == old(self).settings.dist_path@ + "tick_processor"@,
            r.1.args@.len() == 2,
            exists|b: u128| (#[trigger] r.1.args@[0]@) == spec_uid_chars(b),
            r.1.args@[1] == symbol,
    {
        let mod_uuid = Uid::fresh();
        let path = self.settings.dist_path.clone().concat("tick_processor");
        let mut args: Vec<String> = Vec::new();
        args.push(uid_hyphenated(mod_uuid));
        args.push(symbol);
        proof {
            assert(args@[0]@ == spec_uid_chars(mod_uuid.bits));
        }
        (Response::Okay, SpawnSpec { path, args })
    }

    /// The spawn command for an optimizer running `strategy`.
    pub fn spawn_optimizer(&mut self, strategy: String) -> (r: (Response, SpawnSpec))
        requires
            old(self).wf(),
        ensures
            final(self).wf(),
            *final(self) == *old(self),
            r.0 == Response::Okay,
            r.1.path@ == old(self).settings.dist_path@ + "optimizer"@,
            r.1.args@.len() == 2,
            exists|b: u128| (#[trigger] r.1.args@[0]@) == spec_uid_chars(b),
            r.1.args@[1] == strategy,
    {
        let mod_uuid = Uid::fresh();
        let path = self.settings.dist_path.clone().concat("optimizer");
        let mut args: Vec<String> = Vec::new();
        args.push(uid_hyphenated(mod_uuid));
        args.push(strategy);
        proof {
            assert(args@[0]@ == spec_uid_chars(mod_uuid.bits));
        }
        (Response::Okay, SpawnSpec { path, args })
    }

    /// The spawn command for a backtester instance.
    pub fn spawn_backtester(&mut self) -> (r: (Response, SpawnSpec))
        requires
            old(self).wf(),
        ensures
            final(self).wf(),
            *final(self) == *old(self),
            r.0 == Response::Okay,
            r.1.path@ == old(self).settings.dist_path@ + "backtester"@,
            r.1.args@.len() == 1,
            exists|b: u128| (#[trigger] r.1.args@[0]@) == spec_uid_chars(b),
    {
        let mod_uuid = Uid::fresh();
        let path = self.settings.dist_path.clone().concat("backtester");
        let mut args: Vec<String> = Vec::new();
        args.push(uid_hyphenated(mod_uuid));
        proof {
            assert(args@[0]@ == spec_uid_chars(mod_uuid.bits));
        }
        (Response::Okay, SpawnSpec { path, args })
    }

    /// The spawn command for the historical data downloader.
    pub fn spawn_fxcm_dd(&mut self) -> (r: (Response, SpawnSpec))
        requires
            old(self).wf(),
        ensures
            final(self).wf(),
            *final(self) == *old(self),
            r.0 == Response::Okay,
            r.1.path@ == old(self).settings.dist_path@ + "fxcm_native_downloader"@,
            r.1.args@.len() == 1,
            exists|b: u128| (#[trigger] r.1.args@[0]@) == spec_uid_chars(b),
    {
        let mod_uuid = Uid::fresh();
        let path = self.settings.dist_path.clone().concat("fxcm_native_downloader");
        let mut args: Vec<String> = Vec::new();
        args.push(uid_hyphenated(mod_uuid));
        proof {
            assert(args@[0]@ == spec_uid_chars(mod_uuid.bits));
        }
        (Response::Okay, SpawnSpec { path, args })
    }
}


/// The encoding of one living-list entry in a census report.
pub open spec fn enc_instance(kind: Seq<char>, b: u128) -> Seq<char> {
    enc_f2("instance_type"@, enc_jstr(kind), "uuid"@, enc_uid(b))
}

/// The census text: the encoded instances, joined by a comma and a space,
/// in brackets.
pub open spec fn enc_census(insts: Seq<Instance>) -> Seq<char>
    decreases insts.len(),
{
    if insts.len() == 0 {
        Seq::empty()
    } else if insts.len() == 1 {
        enc_instance(insts[0].instance_type@, insts[0].uuid.bits)
    } else {
        enc_census(insts.drop_last()) + seq![',', ' '] + enc_instance(
            insts.last().instance_type@,
            insts.last().uuid.bits,
        )
    }
}

/// What the supervisor does beyond replying: spawn a process, execute a
/// wrapped command on a channel, or schedule its own exit.
#[derive(PartialEq, Debug, Clone)]
pub enum SpawnerEffect {
    Spawn(SpawnSpec),
    Execute { channel: String, wrapped: WrappedCommand },
    ScheduleExit,
}

impl InstanceManager {
    /// Dispatches one inbound command, as the supervisor's listener does:
    /// the reply to publish, and the effects the caller must perform.
    pub fn handle_command(&mut self, cmd: Command) -> (r: (Response, Vec<SpawnerEffect>))
        requires
            old(self).wf(),
        ensures
            final(self).wf(),
            final(self).uuid == old(self).uuid,
            final(self).settings == old(self).settings,
            cmd == Command::Ping ==> (r.0 matches Response::Pong { args } && args@.len() == 1
                && args@[0]@ == spec_uid_chars(old(self).uuid.bits)) && *final(self) == *old(self)
                && r.1@.len() == 0,
            cmd == Command::Type ==> (r.0 matches Response::Info { info }
                && info@ == spawner_kind()) && *final(self) == *old(self) && r.1@.len() == 0,
            cmd == Command::Kill ==> (r.0 is Info && r.1@.len() == 1
                && r.1@[0] == SpawnerEffect::ScheduleExit) && *final(self) == *old(self),
            (cmd matches Command::Ready { instance_type, uuid }
                ==> r.0 == Response::Okay && r.1@.len() == 0
                    && final(self).living@ == old(self).living@.push(
                    (Instance { instance_type, uuid }),
                ) && final(self).cs == old(self).cs),
            cmd == Command::KillAllInstances ==> r.0 == Response::Okay
                && final(self).living@.len() == 0 && r.1@.len() == old(self).living@.len()
                && forall|i: int| 0 <= i < r.1@.len() ==> ((#[trigger] r.1@[i]) matches
                    SpawnerEffect::Execute { channel, wrapped }
                        && channel@ == spec_uid_chars(old(self).living@[i].uuid.bits)
                        && wrapped.cmd == Command::Kill),
            cmd == Command::Census ==> (r.0 matches Response::Info { info }
                && info@ == seq!['['] + enc_census(old(self).living@) + seq![']'])
                && *final(self) == *old(self) && r.1@.len() == 0,
            cmd == Command::SpawnMM ==> r.0 == Response::Okay && r.1@.len() == 1
                && (r.1@[0] matches SpawnerEffect::Spawn(sp)
                    && sp.path@ == old(self).settings.node_binary_path@),
            (cmd matches Command::SpawnTickParser { symbol } || cmd matches
                Command::SpawnOptimizer { strategy } || cmd == Command::SpawnBacktester
                || cmd == Command::SpawnFxcmDataDownloader) ==> r.0 == Response::Okay
                && r.1@.len() == 1 && r.1@[0] is Spawn,
            !(cmd matches Command::Ping || cmd matches Command::Kill || cmd matches Command::Type
                || cmd matches Command::Ready { .. } || cmd matches Command::KillAllInstances
                || cmd matches Command::Census || cmd matches Command::SpawnMM
                || cmd matches Command::SpawnOptimizer { .. }
                || cmd matches Command::SpawnTickParser { .. }
                || cmd matches Command::SpawnBacktester
                || cmd matches Command::SpawnFxcmDataDownloader)
                ==> (r.0 matches Response::Error { status }
                    && status@ == "Command not accepted by the instance spawner"@)
                    && *final(self) == *old(self) && r.1@.len() == 0,
    {
        let mut effects: Vec<SpawnerEffect> = Vec::new();
        let resp: Response = match cmd {
            Command::Ping => {
                let mut args: Vec<String> = Vec::new();
                args.push(uid_hyphenated(self.uuid));
                Response::Pong { args }
            },
            Command::Kill => {
                effects.push(SpawnerEffect::ScheduleExit);
                Response::Info { info: String::from_str("Shutting down in 3 seconds...") }
            },
            Command::Type => {
                let info = String::from_str("Spawner");
                proof {
                    reveal_strlit("Spawner");
                    assert(info@ == spawner_kind());
                }
                Response::Info { info }
            },
            Command::Ready { instance_type, uuid } => {
                self.add_instance(Instance { instance_type, uuid });
                Response::Okay
            },
            Command::KillAllInstances => {
                let (resp, kills) = self.kill_all();
                let n = kills.len();
                let mut kv = kills;
                let mut i: usize = 0;
                while i < n
                    invariant
                        n == old(self).living@.len(),
                        kv@.len() == n - i,
                        i <= n,
                        effects@.len() == i,
                        forall|t: int| 0 <= t < kv@.len() ==> (#[trigger] kv@[t]).0@
                            == spec_uid_chars(old(self).living@[t + i].uuid.bits)
                            && kv@[t].1.cmd == Command::Kill,
                        forall|t: int| 0 <= t < i ==> ((#[trigger] effects@[t]) matches
                            SpawnerEffect::Execute { channel, wrapped }
                                && channel@ == spec_uid_chars(old(self).living@[t].uuid.bits)
                                && wrapped.cmd == Command::Kill),
                    decreases n - i,
                {
                    let ghost pre_kv = kv@;
                    let (channel, wrapped) = kv.remove(0);
                    proof {
                        pre_kv.remove_ensures(0);
                    }
                    effects.push(SpawnerEffect::Execute { channel, wrapped });
                    i += 1;
                }
                resp
            },
            Command::Census => self.census(),
            Command::SpawnMM => {
                let (resp, sp) = self.spawn_mm();
                effects.push(SpawnerEffect::Spawn(sp));
                resp
            },
            Command::SpawnOptimizer { strategy } => {
                let (resp, sp) = self.spawn_optimizer(strategy);
                effects.push(SpawnerEffect::Spawn(sp));
                resp
            },
            Command::SpawnTickParser { symbol } => {
                let (resp, sp) = self.spawn_tick_parser(symbol);
                effects.push(SpawnerEffect::Spawn(sp));
                resp
            },
            Command::SpawnBacktester => {
                let (resp, sp) = self.spawn_backtester();
                effects.push(SpawnerEffect::Spawn(sp));
                resp
            },
            Command::SpawnFxcmDataDownloader => {
                let (resp, sp) = self.spawn_fxcm_dd();
                effects.push(SpawnerEffect::Spawn(sp));
                resp
            },
            _ => Response::Error {
                status: String::from_str("Command not accepted by the instance spawner"),
            },
        };
        (resp, effects)
    }

    /// The census reply: the living list, encoded entry by entry, joined by
    /// a comma and a space, in brackets.
    #[verifier::rlimit(100)]
    #[verifier::spinoff_prover]
    pub fn census(&self) -> (r: Response)
        ensures
            r matches Response::Info { info } && info@ == seq!['['] + enc_census(self.living@)
                + seq![']'],
    {
        let mut out: Vec<char> = Vec::new();
        out.push('[');
        let n = self.living.len();
        let mut i: usize = 0;
        while i < n
            invariant
                n == self.living@.len(),
                i <= n,
                out@ == seq!['['] + enc_census(self.living@.subrange(0, i as int)),
            decreases n - i,
        {
            if i > 0 {
                out.push(',');
                out.push(' ');
            }
            let inst = &self.living[i];
            out.push('{');
            push_jstr(&mut out, "instance_type");
            out.push(':');
            push_jstr(&mut out, inst.instance_type.as_str());
            out.push(',');
            push_jstr(&mut out, "uuid");
            out.push(':');
            push_uidv(&mut out, inst.uuid);
            out.push('}');
            proof {
                let pre = self.living@.subrange(0, i as int);
                let post = self.living@.subrange(0, (i + 1) as int);
                assert(post.drop_last() =~= pre);
                assert(post.last() == self.living@[i as int]);
                if i == 0 {
                    assert(enc_census(post) == enc_instance(
                        self.living@[0].instance_type@,
                        self.living@[0].uuid.bits,
                    ));
                }
                assert(out@ =~= seq!['['] + enc_census(post));
            }
            i += 1;
        }
        out.push(']');
        proof {
            assert(self.living@.subrange(0, n as int) =~= self.living@);
            assert(out@ =~= seq!['['] + enc_census(self.living@) + seq![']']);
        }
        Response::Info { info: chars_to_string(&out) }
    }
}

/// The kind string the supervisor reports for a `Type` query.
pub open spec fn spawner_kind() -> Seq<char> {
    "Spawner"@
}

} // verus!
