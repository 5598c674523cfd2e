//! The commands and responses of the intermodular messaging protocol, and
//! the correlated envelopes that carry them.
//!
//! A command is wrapped with a freshly generated correlation identifier
//! before it is published; the responder places the same identifier in its
//! wrapped response, which is how a caller pairs the two.

use vstd::prelude::*;
use crate::ids::Uid;

verus! {

/// Settings a simulated broker is created with.
#[derive(PartialEq, Eq, Structural, Clone, Copy, Debug)]
pub struct SimBrokerSettings {
    pub starting_balance: u64,
}

impl Default for SimBrokerSettings {
    fn default() -> (r: Self)
        ensures
            r.starting_balance == 0,
    {
        SimBrokerSettings { starting_balance: 0 }
    }
}

/// Where recorded historical ticks are saved.
#[derive(PartialEq, Debug, Clone)]
pub enum HistTickDst {
    Flatfile { filename: String },
    Postgres { table: String },
    RedisChannel { host: String, channel: String },
    RedisSet { host: String, set_name: String },
    Console,
}

impl HistTickDst {
    /// A structurally equal copy.
    pub fn duplicate(&self) -> (r: HistTickDst)
        ensures
            r == *self,
    {
        match self {
            HistTickDst::Flatfile { filename } => HistTickDst::Flatfile {
                filename: filename.clone(),
            },
            HistTickDst::Postgres { table } => HistTickDst::Postgres { table: table.clone() },
            HistTickDst::RedisChannel { host, channel } => HistTickDst::RedisChannel {
                host: host.clone(),
                channel: channel.clone(),
            },
            HistTickDst::RedisSet { host, set_name } => HistTickDst::RedisSet {
                host: host.clone(),
                set_name: set_name.clone(),
            },
            HistTickDst::Console => HistTickDst::Console,
        }
    }
}

/// A command sent from one platform module to another.  The set is closed:
/// a recipient that does not accept a variant replies with an error.
#[derive(PartialEq, Debug, Clone)]
pub enum Command {
    Ping,
    Shutdown,
    Kill,
    Register { channel: String },
    Type,
    Ready { instance_type: String, uuid: Uid },
    AddSMA { period: u64 },
    RemoveSMA { period: u64 },
    SpawnMM,
    Census,
    SpawnOptimizer { strategy: String },
    SpawnTickParser { symbol: String },
    SpawnBacktester,
    SpawnFxcmDataDownloader,
    KillInstance { uuid: Uid },
    KillAllInstances,
    StartBacktest { definition: String },
    PauseBacktest { uuid: Uid },
    ResumeBacktest { uuid: Uid },
    StopBacktest { uuid: Uid },
    ListBacktests,
    ListSimbrokers,
    SpawnSimbroker { settings: SimBrokerSettings },
    DownloadTicks { start_time: String, end_time: String, symbol: String, dst: HistTickDst },
    ListRunningDownloads,
    DownloadComplete { start_time: String, end_time: String, symbol: String, dst: HistTickDst },
}

impl Command {
    /// A structurally equal copy.
    pub fn duplicate(&self) -> (r: Command)
        ensures
            r == *self,
    {
        match self {
            Command::Ping => Command::Ping,
            Command::Shutdown => Command::Shutdown,
            Command::Kill => Command::Kill,
            Command::Register { channel } => Command::Register { channel: channel.clone() },
            Command::Type => Command::Type,
            Command::Ready { instance_type, uuid } => Command::Ready {
                instance_type: instance_type.clone(),
                uuid: *uuid,
            },
            Command::AddSMA { period } => Command::AddSMA { period: *period },
            Command::RemoveSMA { period } => Command::RemoveSMA { period: *period },
            Command::SpawnMM => Command::SpawnMM,
            Command::Census => Command::Census,
            Command::SpawnOptimizer { strategy } => Command::SpawnOptimizer {
                strategy: strategy.clone(),
            },
            Command::SpawnTickParser { symbol } => Command::SpawnTickParser {
                symbol: symbol.clone(),
            },
            Command::SpawnBacktester => Command::SpawnBacktester,
            Command::SpawnFxcmDataDownloader => Command::SpawnFxcmDataDownloader,
            Command::KillInstance { uuid } => Command::KillInstance { uuid: *uuid },
            Command::KillAllInstances => Command::KillAllInstances,
            Command::StartBacktest { definition } => Command::StartBacktest {
                definition: definition.clone(),
            },
            Command::PauseBacktest { uuid } => Command::PauseBacktest { uuid: *uuid },
            Command::ResumeBacktest { uuid } => Command::ResumeBacktest { uuid: *uuid },
            Command::StopBacktest { uuid } => Command::StopBacktest { uuid: *uuid },
            Command::ListBacktests => Command::ListBacktests,
            Command::ListSimbrokers => Command::ListSimbrokers,
            Command::SpawnSimbroker { settings } => Command::SpawnSimbroker {
                settings: *settings,
            },
            Command::DownloadTicks { start_time, end_time, symbol, dst } => {
                Command::DownloadTicks {
                    start_time: start_time.clone(),
                    end_time: end_time.clone(),
                    symbol: symbol.clone(),
                    dst: dst.duplicate(),
                }
            },
            Command::ListRunningDownloads => Command::ListRunningDownloads,
            Command::DownloadComplete { start_time, end_time, symbol, dst } => {
                Command::DownloadComplete {
                    start_time: start_time.clone(),
                    end_time: end_time.clone(),
                    symbol: symbol.clone(),
                    dst: dst.duplicate(),
                }
            },
        }
    }

    /// Wraps the command with a freshly generated correlation id.
    pub fn wrap(self) -> (r: WrappedCommand)
        ensures
            r.cmd == self,
    {
        WrappedCommand { uuid: Uid::fresh(), cmd: self }
    }
}

/// A response to a command sent at some earlier point.
#[derive(PartialEq, Debug, Clone)]
pub enum Response {
    Okay,
    Error { status: String },
    Pong { args: Vec<String> },
    Info { info: String },
}

impl Response {
    /// Binds the response to the correlation id of the command it answers.
    pub fn wrap(self, uuid: Uid) -> (r: WrappedResponse)
        ensures
            r.uuid == uuid,
            r.res == self,
    {
        WrappedResponse { uuid, res: self }
    }
}

/// A command bound to the correlation id that links it with its response.
#[derive(PartialEq, Debug, Clone)]
pub struct WrappedCommand {
    pub uuid: Uid,
    pub cmd: Command,
}

impl WrappedCommand {
    /// Wraps `cmd` with a freshly generated correlation id.
    pub fn from_command(cmd: Command) -> (r: WrappedCommand)
        ensures
            r.cmd == cmd,
    {
        WrappedCommand { uuid: Uid::fresh(), cmd }
    }
}

/// A response bound to the correlation id of the command it answers.
#[derive(PartialEq, Debug, Clone)]
pub struct WrappedResponse {
    pub uuid: Uid,
    pub res: Response,
}

impl WrappedResponse {
    /// Binds `res` to the given correlation id.
    pub fn from_response(res: Response, uuid: Uid) -> (r: WrappedResponse)
        ensures
            r.uuid == uuid,
            r.res == res,
    {
        WrappedResponse { uuid, res }
    }
}

} // verus!
