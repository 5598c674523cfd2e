//! The wire codec for commands and responses: exact encodings, parsers that
//! equal their spec twins, and the round-trip laws.
//!
//! The encoding is the canonical structured-text form: a unit variant is its
//! quoted tag, any other variant is a one-entry object from the tag to an
//! object of its fields, in declaration order, with no added whitespace.
//! The parsers accept whitespace between tokens.

use vstd::prelude::*;
use vstd::string::StringExecFns;
use crate::codec::{e_key, e_nval, e_sval, e_tok, e_uidval, enc_entry, enc_obj,
    lemma_p_key_of_enc, lemma_p_nval_of_enc, lemma_p_sval_of_enc, lemma_p_uidval_of_enc,
    lemma_skip_ws_id, lemma_tok_of_enc, p_key, p_nval, p_sval, p_uidval, tok, ws_end};
use crate::commands::{Command, HistTickDst, Response, SimBrokerSettings, WrappedCommand,
    WrappedResponse};
use crate::ids::{push_uid_chars, spec_uid_chars, Uid};
use crate::json::{enc_jstr, enc_u64, enc_uid, esc, esc_char, is_digit, is_ws, lemma_char_at,
    lemma_esc_snoc, lemma_matches_at_concat, matches_at, parse_jstr, skip_ws, spec_digit_char};
use crate::strutil::chars_to_string;

verus! {

// ---------------------------------------------------------------------------
// views
// ---------------------------------------------------------------------------

pub enum HistV {
    Flatfile { filename: Seq<char> },
    Postgres { table: Seq<char> },
    RedisChannel { host: Seq<char>, channel: Seq<char> },
    RedisSet { host: Seq<char>, set_name: Seq<char> },
    Console,
}

impl View for HistTickDst {
    type V = HistV;

    open spec fn view(&self) -> HistV {
        match self {
            HistTickDst::Flatfile { filename } => HistV::Flatfile { filename: filename@ },
            HistTickDst::Postgres { table } => HistV::Postgres { table: table@ },
            HistTickDst::RedisChannel { host, channel } => HistV::RedisChannel {
                host: host@,
                channel: channel@,
            },
            HistTickDst::RedisSet { host, set_name } => HistV::RedisSet {
                host: host@,
                set_name: set_name@,
            },
            HistTickDst::Console => HistV::Console,
        }
    }
}

pub enum CmdV {
    Ping,
    Shutdown,
    Kill,
    Register { channel: Seq<char> },
    Type,
    Ready { instance_type: Seq<char>, uuid: u128 },
    AddSMA { period: u64 },
    RemoveSMA { period: u64 },
    SpawnMM,
    Census,
    SpawnOptimizer { strategy: Seq<char> },
    SpawnTickParser { symbol: Seq<char> },
    SpawnBacktester,
    SpawnFxcmDataDownloader,
    KillInstance { uuid: u128 },
    KillAllInstances,
    StartBacktest { definition: Seq<char> },
    PauseBacktest { uuid: u128 },
    ResumeBacktest { uuid: u128 },
    StopBacktest { uuid: u128 },
    ListBacktests,
    ListSimbrokers,
    SpawnSimbroker { starting_balance: u64 },
    DownloadTicks { start_time: Seq<char>, end_time: Seq<char>, symbol: Seq<char>, dst: HistV },
    ListRunningDownloads,
    DownloadComplete { start_time: Seq<char>, end_time: Seq<char>, symbol: Seq<char>, dst: HistV },
}

impl View for Command {
    type V = CmdV;

    open spec fn view(&self) -> CmdV {
        match self {
            Command::Ping => CmdV::Ping,
            Command::Shutdown => CmdV::Shutdown,
            Command::Kill => CmdV::Kill,
            Command::Register { channel } => CmdV::Register { channel: channel@ },
            Command::Type => CmdV::Type,
            Command::Ready { instance_type, uuid } => CmdV::Ready {
                instance_type: instance_type@,
                uuid: uuid.bits,
            },
            Command::AddSMA { period } => CmdV::AddSMA { period: *period },
            Command::RemoveSMA { period } => CmdV::RemoveSMA { period: *period },
            Command::SpawnMM => CmdV::SpawnMM,
            Command::Census => CmdV::Census,
            Command::SpawnOptimizer { strategy } => CmdV::SpawnOptimizer { strategy: strategy@ },
            Command::SpawnTickParser { symbol } => CmdV::SpawnTickParser { symbol: symbol@ },
            Command::SpawnBacktester => CmdV::SpawnBacktester,
            Command::SpawnFxcmDataDownloader => CmdV::SpawnFxcmDataDownloader,
            Command::KillInstance { uuid } => CmdV::KillInstance { uuid: uuid.bits },
            Command::KillAllInstances => CmdV::KillAllInstances,
            Command::StartBacktest { definition } => CmdV::StartBacktest {
                definition: definition@,
            },
            Command::PauseBacktest { uuid } => CmdV::PauseBacktest { uuid: uuid.bits },
            Command::ResumeBacktest { uuid } => CmdV::ResumeBacktest { uuid: uuid.bits },
            Command::StopBacktest { uuid } => CmdV::StopBacktest { uuid: uuid.bits },
            Command::ListBacktests => CmdV::ListBacktests,
            Command::ListSimbrokers => CmdV::ListSimbrokers,
            Command::SpawnSimbroker { settings } => CmdV::SpawnSimbroker {
                starting_balance: settings.starting_balance,
            },
            Command::DownloadTicks { start_time, end_time, symbol, dst } => CmdV::DownloadTicks {
                start_time: start_time@,
                end_time: end_time@,
                symbol: symbol@,
                dst: dst@,
            },
            Command::ListRunningDownloads => CmdV::ListRunningDownloads,
            Command::DownloadComplete { start_time, end_time, symbol, dst } => {
                CmdV::DownloadComplete {
                    start_time: start_time@,
                    end_time: end_time@,
                    symbol: symbol@,
                    dst: dst@,
                }
            },
        }
    }
}

pub enum RespV {
    Okay,
    Error { status: Seq<char> },
    Pong { args: Seq<Seq<char>> },
    Info { info: Seq<char> },
}

impl View for Response {
    type V = RespV;

    open spec fn view(&self) -> RespV {
        match self {
            Response::Okay => RespV::Okay,
            Response::Error { status } => RespV::Error { status: status@ },
            Response::Pong { args } => RespV::Pong { args: args.deep_view() },
            Response::Info { info } => RespV::Info { info: info@ },
        }
    }
}

pub struct WcV {
    pub uuid: u128,
    pub cmd: CmdV,
}

impl View for WrappedCommand {
    type V = WcV;

    open spec fn view(&self) -> WcV {
        WcV { uuid: self.uuid.bits, cmd: self.cmd@ }
    }
}

pub struct WrV {
    pub uuid: u128,
    pub res: RespV,
}

impl View for WrappedResponse {
    type V = WrV;

    open spec fn view(&self) -> WrV {
        WrV { uuid: self.uuid.bits, res: self.res@ }
    }
}

// ---------------------------------------------------------------------------
// spec encoders
// ---------------------------------------------------------------------------

/// `{"f":<v>}`.
pub open spec fn enc_f1(f: Seq<char>, v: Seq<char>) -> Seq<char> {
    seq!['{'] + enc_entry(f, v) + seq!['}']
}

/// `{"f1":<v1>,"f2":<v2>}`.
pub open spec fn enc_f2(f1: Seq<char>, v1: Seq<char>, f2: Seq<char>, v2: Seq<char>) -> Seq<char> {
    seq!['{'] + enc_entry(f1, v1) + seq![','] + enc_entry(f2, v2) + seq!['}']
}

/// `{"f1":<v1>,"f2":<v2>,"f3":<v3>,"f4":<v4>}`.
pub open spec fn enc_f4(
    f1: Seq<char>, v1: Seq<char>,
    f2: Seq<char>, v2: Seq<char>,
    f3: Seq<char>, v3: Seq<char>,
    f4: Seq<char>, v4: Seq<char>,
) -> Seq<char> {
    seq!['{'] + enc_entry(f1, v1) + seq![','] + enc_entry(f2, v2) + seq![','] + enc_entry(f3, v3)
        + seq![','] + enc_entry(f4, v4) + seq!['}']
}

pub open spec fn enc_hist(h: HistV) -> Seq<char> {
    match h {
        HistV::Flatfile { filename } => enc_obj("Flatfile"@, enc_f1("filename"@, enc_jstr(
            filename,
        ))),
        HistV::Postgres { table } => enc_obj("Postgres"@, enc_f1("table"@, enc_jstr(table))),
        HistV::RedisChannel { host, channel } => enc_obj("RedisChannel"@, enc_f2(
            "host"@,
            enc_jstr(host),
            "channel"@,
            enc_jstr(channel),
        )),
        HistV::RedisSet { host, set_name } => enc_obj("RedisSet"@, enc_f2(
            "host"@,
            enc_jstr(host),
            "set_name"@,
            enc_jstr(set_name),
        )),
        HistV::Console => enc_jstr("Console"@),
    }
}

pub open spec fn enc_cmd(c: CmdV) -> Seq<char> {
    match c {
        CmdV::Ping => enc_jstr("Ping"@),
        CmdV::Shutdown => enc_jstr("Shutdown"@),
        CmdV::Kill => enc_jstr("Kill"@),
        CmdV::Register { channel } => enc_obj("Register"@, enc_f1("channel"@, enc_jstr(channel))),
        CmdV::Type => enc_jstr("Type"@),
        CmdV::Ready { instance_type, uuid } => enc_obj("Ready"@, enc_f2(
            "instance_type"@,
            enc_jstr(instance_type),
            "uuid"@,
            enc_uid(uuid),
        )),
        CmdV::AddSMA { period } => enc_obj("AddSMA"@, enc_f1("period"@, enc_u64(period as int))),
        CmdV::RemoveSMA { period } => enc_obj("RemoveSMA"@, enc_f1(
            "period"@,
            enc_u64(period as int),
        )),
        CmdV::SpawnMM => enc_jstr("SpawnMM"@),
        CmdV::Census => enc_jstr("Census"@),
        CmdV::SpawnOptimizer { strategy } => enc_obj("SpawnOptimizer"@, enc_f1(
            "strategy"@,
            enc_jstr(strategy),
        )),
        CmdV::SpawnTickParser { symbol } => enc_obj("SpawnTickParser"@, enc_f1(
            "symbol"@,
            enc_jstr(symbol),
        )),
        CmdV::SpawnBacktester => enc_jstr("SpawnBacktester"@),
        CmdV::SpawnFxcmDataDownloader => enc_jstr("SpawnFxcmDataDownloader"@),
        CmdV::KillInstance { uuid } => enc_obj("KillInstance"@, enc_f1("uuid"@, enc_uid(uuid))),
        CmdV::KillAllInstances => enc_jstr("KillAllInstances"@),
        CmdV::StartBacktest { definition } => enc_obj("StartBacktest"@, enc_f1(
            "definition"@,
            enc_jstr(definition),
        )),
        CmdV::PauseBacktest { uuid } => enc_obj("PauseBacktest"@, enc_f1("uuid"@, enc_uid(uuid))),
        CmdV::ResumeBacktest { uuid } => enc_obj("ResumeBacktest"@, enc_f1(
            "uuid"@,
            enc_uid(uuid),
        )),
        CmdV::StopBacktest { uuid } => enc_obj("StopBacktest"@, enc_f1("uuid"@, enc_uid(uuid))),
        CmdV::ListBacktests => enc_jstr("ListBacktests"@),
        CmdV::ListSimbrokers => enc_jstr("ListSimbrokers"@),
        CmdV::SpawnSimbroker { starting_balance } => enc_obj("SpawnSimbroker"@, enc_f1(
            "settings"@,
            enc_f1("starting_balance"@, enc_u64(starting_balance as int)),
        )),
        CmdV::DownloadTicks { start_time, end_time, symbol, dst } => enc_obj("DownloadTicks"@,
            enc_f4(
                "start_time"@,
                enc_jstr(start_time),
                "end_time"@,
                enc_jstr(end_time),
                "symbol"@,
                enc_jstr(symbol),
                "dst"@,
                enc_hist(dst),
            ),
        ),
        CmdV::ListRunningDownloads => enc_jstr("ListRunningDownloads"@),
        CmdV::DownloadComplete { start_time, end_time, symbol, dst } => enc_obj(
            "DownloadComplete"@,
            enc_f4(
                "start_time"@,
                enc_jstr(start_time),
                "end_time"@,
                enc_jstr(end_time),
                "symbol"@,
                enc_jstr(symbol),
                "dst"@,
                enc_hist(dst),
            ),
        ),
    }
}

/// The items of a string array, comma-separated.
pub open spec fn enc_arr_items(vs: Seq<Seq<char>>) -> Seq<char>
    decreases vs.len(),
{
    if vs.len() == 0 {
        Seq::empty()
    } else if vs.len() == 1 {
        enc_jstr(vs[0])
    } else {
        enc_arr_items(vs.drop_last()) + seq![','] + enc_jstr(vs.last())
    }
}

/// `["a","b",...]`.
pub open spec fn enc_arr(vs: Seq<Seq<char>>) -> Seq<char> {
    seq!['['] + enc_arr_items(vs) + seq![']']
}

pub open spec fn enc_resp(r: RespV) -> Seq<char> {
    match r {
        RespV::Okay => enc_jstr("Ok"@),
        RespV::Error { status } => enc_obj("Error"@, enc_f1("status"@, enc_jstr(status))),
        RespV::Pong { args } => enc_obj("Pong"@, enc_f1("args"@, enc_arr(args))),
        RespV::Info { info } => enc_obj("Info"@, enc_f1("info"@, enc_jstr(info))),
    }
}

pub open spec fn enc_wrapped_cmd(w: WcV) -> Seq<char> {
    enc_f2("uuid"@, enc_uid(w.uuid), "cmd"@, enc_cmd(w.cmd))
}

pub open spec fn enc_wrapped_resp(w: WrV) -> Seq<char> {
    enc_f2("uuid"@, enc_uid(w.uuid), "res"@, enc_resp(w.res))
}

// ---------------------------------------------------------------------------
// spec parsers
// ---------------------------------------------------------------------------

/// `{"f":"v"}`.
pub open spec fn p_f1_s(s: Seq<char>, i: int, f: Seq<char>) -> Option<(Seq<char>, int)> {
    match tok(s, i, '{') {
        Some(i1) => match p_key(s, i1, f) {
            Some(i2) => match p_sval(s, i2) {
                Some((x, i3)) => match tok(s, i3, '}') {
                    Some(i4) => Some((x, i4)),
                    None => None,
                },
                None => None,
            },
            None => None,
        },
        None => None,
    }
}

/// `{"f":n}`.
pub open spec fn p_f1_u(s: Seq<char>, i: int, f: Seq<char>) -> Option<(u64, int)> {
    match tok(s, i, '{') {
        Some(i1) => match p_key(s, i1, f) {
            Some(i2) => match p_nval(s, i2) {
                Some((x, i3)) => match tok(s, i3, '}') {
                    Some(i4) => Some((x, i4)),
                    None => None,
                },
                None => None,
            },
            None => None,
        },
        None => None,
    }
}

/// `{"f":"<uuid>"}`.
pub open spec fn p_f1_uid(s: Seq<char>, i: int, f: Seq<char>) -> Option<(u128, int)> {
    match tok(s, i, '{') {
        Some(i1) => match p_key(s, i1, f) {
            Some(i2) => match p_uidval(s, i2) {
                Some((x, i3)) => match tok(s, i3, '}') {
                    Some(i4) => Some((x, i4)),
                    None => None,
                },
                None => None,
            },
            None => None,
        },
        None => None,
    }
}

/// `{"f1":"v1","f2":"<uuid>"}`.
pub open spec fn p_f2_s_uid(s: Seq<char>, i: int, f1: Seq<char>, f2: Seq<char>) -> Option<
    ((Seq<char>, u128), int),
> {
    match tok(s, i, '{') {
        Some(i1) => match p_key(s, i1, f1) {
            Some(i2) => match p_sval(s, i2) {
                Some((x, i3)) => match tok(s, i3, ',') {
                    Some(i4) => match p_key(s, i4, f2) {
                        Some(i5) => match p_uidval(s, i5) {
                            Some((y, i6)) => match tok(s, i6, '}') {
                                Some(i7) => Some(((x, y), i7)),
                                None => None,
                            },
                            None => None,
                        },
                        None => None,
                    },
                    None => None,
                },
                None => None,
            },
            None => None,
        },
        None => None,
    }
}

/// `{"f1":"v1","f2":"v2"}`.
pub open spec fn p_f2_s_s(s: Seq<char>, i: int, f1: Seq<char>, f2: Seq<char>) -> Option<
    ((Seq<char>, Seq<char>), int),
> {
    match tok(s, i, '{') {
        Some(i1) => match p_key(s, i1, f1) {
            Some(i2) => match p_sval(s, i2) {
                Some((x, i3)) => match tok(s, i3, ',') {
                    Some(i4) => match p_key(s, i4, f2) {
                        Some(i5) => match p_sval(s, i5) {
                            Some((y, i6)) => match tok(s, i6, '}') {
                                Some(i7) => Some(((x, y), i7)),
                                None => None,
                            },
                            None => None,
                        },
                        None => None,
                    },
                    None => None,
                },
                None => None,
            },
            None => None,
        },
        None => None,
    }
}

/// The rest of a string array after its opening bracket (first item parsed
/// at `i`): items separated by commas, closed by a bracket.
pub open spec fn p_arr_items(s: Seq<char>, i: int) -> Option<(Seq<Seq<char>>, int)>
    decreases s.len() - i,
{
    match p_sval(s, i) {
        Some((x, j)) => {
            if i < j <= s.len() {
                match tok(s, j, ']') {
                    Some(j2) => Some((seq![x], j2)),
                    None => match tok(s, j, ',') {
                        Some(j3) => if j < j3 <= s.len() {
                            match p_arr_items(s, j3) {
                                Some((rest, e)) => Some((seq![x] + rest, e)),
                                None => None,
                            }
                        } else {
                            None
                        },
                        None => None,
                    },
                }
            } else {
                None
            }
        },
        None => None,
    }
}

/// `["a","b",...]`, possibly empty.
pub open spec fn p_arr(s: Seq<char>, i: int) -> Option<(Seq<Seq<char>>, int)> {
    match tok(s, i, '[') {
        Some(i1) => {
            match tok(s, i1, ']') {
                Some(i2) => Some((Seq::empty(), i2)),
                None => if i < i1 <= s.len() {
                    p_arr_items(s, i1)
                } else {
                    None
                },
            }
        },
        None => None,
    }
}

/// A tick destination value.
pub open spec fn p_hist(s: Seq<char>, i: int) -> Option<(HistV, int)> {
    let k = skip_ws(s, i);
    if 0 <= k < s.len() && s[k] == '"' {
        match parse_jstr(s, k) {
            Some((t, j)) => if t == "Console"@ {
                Some((HistV::Console, j))
            } else {
                None
            },
            None => None,
        }
    } else {
        match tok(s, i, '{') {
            Some(i1) => match p_sval(s, i1) {
                Some((t, j)) => match tok(s, j, ':') {
                    Some(i2) => {
                        let inner: Option<(HistV, int)> = if t == "Flatfile"@ {
                            match p_f1_s(s, i2, "filename"@) {
                                Some((x, i3)) => Some((HistV::Flatfile { filename: x }, i3)),
                                None => None,
                            }
                        } else if t == "Postgres"@ {
                            match p_f1_s(s, i2, "table"@) {
                                Some((x, i3)) => Some((HistV::Postgres { table: x }, i3)),
                                None => None,
                            }
                        } else if t == "RedisChannel"@ {
                            match p_f2_s_s(s, i2, "host"@, "channel"@) {
                                Some(((h, c), i3)) => Some(
                                    (HistV::RedisChannel { host: h, channel: c }, i3),
                                ),
                                None => None,
                            }
                        } else if t == "RedisSet"@ {
                            match p_f2_s_s(s, i2, "host"@, "set_name"@) {
                                Some(((h, c), i3)) => Some(
                                    (HistV::RedisSet { host: h, set_name: c }, i3),
                                ),
                                None => None,
                            }
                        } else {
                            None
                        };
                        match inner {
                            Some((h, i3)) => match tok(s, i3, '}') {
                                Some(i4) => Some((h, i4)),
                                None => None,
                            },
                            None => None,
                        }
                    },
                    None => None,
                },
                None => None,
            },
            None => None,
        }
    }
}

/// A command value.
pub open spec fn p_cmd(s: Seq<char>, i: int) -> Option<(CmdV, int)> {
    let k = skip_ws(s, i);
    if 0 <= k < s.len() && s[k] == '"' {
        match parse_jstr(s, k) {
            Some((t, j)) => {
                if t == "Ping"@ { Some((CmdV::Ping, j)) }
                else if t == "Shutdown"@ { Some((CmdV::Shutdown, j)) }
                else if t == "Kill"@ { Some((CmdV::Kill, j)) }
                else if t == "Type"@ { Some((CmdV::Type, j)) }
                else if t == "SpawnMM"@ { Some((CmdV::SpawnMM, j)) }
                else if t == "Census"@ { Some((CmdV::Census, j)) }
                else if t == "SpawnBacktester"@ { Some((CmdV::SpawnBacktester, j)) }
                else if t == "SpawnFxcmDataDownloader"@ { Some((CmdV::SpawnFxcmDataDownloader, j)) }
                else if t == "KillAllInstances"@ { Some((CmdV::KillAllInstances, j)) }
                else if t == "ListBacktests"@ { Some((CmdV::ListBacktests, j)) }
                else if t == "ListSimbrokers"@ { Some((CmdV::ListSimbrokers, j)) }
                else if t == "ListRunningDownloads"@ { Some((CmdV::ListRunningDownloads, j)) }
                else { None }
            },
            None => None,
        }
    } else {
        match tok(s, i, '{') {
            Some(i1) => match p_sval(s, i1) {
                Some((t, j)) => match tok(s, j, ':') {
                    Some(i2) => {
                        let inner: Option<(CmdV, int)> = if t == "Register"@ {
                            match p_f1_s(s, i2, "channel"@) {
                                Some((x, i3)) => Some((CmdV::Register { channel: x }, i3)),
                                None => None,
                            }
                        } else if t == "Ready"@ {
                            match p_f2_s_uid(s, i2, "instance_type"@, "uuid"@) {
                                Some(((x, u), i3)) => Some(
                                    (CmdV::Ready { instance_type: x, uuid: u }, i3),
                                ),
                                None => None,
                            }
                        } else if t == "AddSMA"@ {
                            match p_f1_u(s, i2, "period"@) {
                                Some((x, i3)) => Some((CmdV::AddSMA { period: x }, i3)),
                                None => None,
                            }
                        } else if t == "RemoveSMA"@ {
                            match p_f1_u(s, i2, "period"@) {
                                Some((x, i3)) => Some((CmdV::RemoveSMA { period: x }, i3)),
                                None => None,
                            }
                        } else if t == "SpawnOptimizer"@ {
                            match p_f1_s(s, i2, "strategy"@) {
                                Some((x, i3)) => Some((CmdV::SpawnOptimizer { strategy: x }, i3)),
                                None => None,
                            }
                        } else if t == "SpawnTickParser"@ {
                            match p_f1_s(s, i2, "symbol"@) {
                                Some((x, i3)) => Some((CmdV::SpawnTickParser { symbol: x }, i3)),
                                None => None,
                            }
                        } else if t == "KillInstance"@ {
                            match p_f1_uid(s, i2, "uuid"@) {
                                Some((u, i3)) => Some((CmdV::KillInstance { uuid: u }, i3)),
                                None => None,
                            }
                        } else if t == "StartBacktest"@ {
                            match p_f1_s(s, i2, "definition"@) {
                                Some((x, i3)) => Some((CmdV::StartBacktest { definition: x }, i3)),
                                None => None,
                            }
                        } else if t == "PauseBacktest"@ {
                            match p_f1_uid(s, i2, "uuid"@) {
                                Some((u, i3)) => Some((CmdV::PauseBacktest { uuid: u }, i3)),
                                None => None,
                            }
                        } else if t == "ResumeBacktest"@ {
                            match p_f1_uid(s, i2, "uuid"@) {
                                Some((u, i3)) => Some((CmdV::ResumeBacktest { uuid: u }, i3)),
                                None => None,
                            }
                        } else if t == "StopBacktest"@ {
                            match p_f1_uid(s, i2, "uuid"@) {
                                Some((u, i3)) => Some((CmdV::StopBacktest { uuid: u }, i3)),
                                None => None,
                            }
                        } else if t == "SpawnSimbroker"@ {
                            match tok(s, i2, '{') {
                                Some(i3) => match p_key(s, i3, "settings"@) {
                                    Some(i4) => match p_f1_u(s, i4, "starting_balance"@) {
                                        Some((x, i5)) => match tok(s, i5, '}') {
                                            Some(i6) => Some(
                                                (CmdV::SpawnSimbroker { starting_balance: x }, i6),
                                            ),
                                            None => None,
                                        },
                                        None => None,
                                    },
                                    None => None,
                                },
                                None => None,
                            }
                        } else if t == "DownloadTicks"@ {
                            match p_dl_fields(s, i2) {
                                Some(((st, et, sym, d), i3)) => Some(
                                    (CmdV::DownloadTicks {
                                        start_time: st,
                                        end_time: et,
                                        symbol: sym,
                                        dst: d,
                                    }, i3),
                                ),
                                None => None,
                            }
                        } else if t == "DownloadComplete"@ {
                            match p_dl_fields(s, i2) {
                                Some(((st, et, sym, d), i3)) => Some(
                                    (CmdV::DownloadComplete {
                                        start_time: st,
                                        end_time: et,
                                        symbol: sym,
                                        dst: d,
                                    }, i3),
                                ),
                                None => None,
                            }
                        } else {
                            None
                        };
                        match inner {
                            Some((c, i3)) => match tok(s, i3, '}') {
                                Some(i4) => Some((c, i4)),
                                None => None,
                            },
                            None => None,
                        }
                    },
                    None => None,
                },
                None => None,
            },
            None => None,
        }
    }
}

/// The field object shared by the download commands.
pub open spec fn p_dl_fields(s: Seq<char>, i: int) -> Option<
    ((Seq<char>, Seq<char>, Seq<char>, HistV), int),
> {
    match tok(s, i, '{') {
        Some(i1) => match p_key(s, i1, "start_time"@) {
            Some(i2) => match p_sval(s, i2) {
                Some((st, i3)) => match tok(s, i3, ',') {
                    Some(i4) => match p_key(s, i4, "end_time"@) {
                        Some(i5) => match p_sval(s, i5) {
                            Some((et, i6)) => match tok(s, i6, ',') {
                                Some(i7) => match p_key(s, i7, "symbol"@) {
                                    Some(i8) => match p_sval(s, i8) {
                                        Some((sym, i9)) => match tok(s, i9, ',') {
                                            Some(i10) => match p_key(s, i10, "dst"@) {
                                                Some(i11) => match p_hist(s, i11) {
                                                    Some((d, i12)) => match tok(s, i12, '}') {
                                                        Some(i13) => Some(
                                                            ((st, et, sym, d), i13),
                                                        ),
                                                        None => None,
                                                    },
                                                    None => None,
                                                },
                                                None => None,
                                            },
                                            None => None,
                                        },
                                        None => None,
                                    },
                                    None => None,
                                },
                                None => None,
                            },
                            None => None,
                        },
                        None => None,
                    },
                    None => None,
                },
                None => None,
            },
            None => None,
        },
        None => None,
    }
}

/// A response value.
pub open spec fn p_resp(s: Seq<char>, i: int) -> Option<(RespV, int)> {
    let k = skip_ws(s, i);
    if 0 <= k < s.len() && s[k] == '"' {
        match parse_jstr(s, k) {
            Some((t, j)) => if t == "Ok"@ {
                Some((RespV::Okay, j))
            } else {
                None
            },
            None => None,
        }
    } else {
        match tok(s, i, '{') {
            Some(i1) => match p_sval(s, i1) {
                Some((t, j)) => match tok(s, j, ':') {
                    Some(i2) => {
                        let inner: Option<(RespV, int)> = if t == "Error"@ {
                            match p_f1_s(s, i2, "status"@) {
                                Some((x, i3)) => Some((RespV::Error { status: x }, i3)),
                                None => None,
                            }
                        } else if t == "Info"@ {
                            match p_f1_s(s, i2, "info"@) {
                                Some((x, i3)) => Some((RespV::Info { info: x }, i3)),
                                None => None,
                            }
                        } else if t == "Pong"@ {
                            match tok(s, i2, '{') {
                                Some(i3) => match p_key(s, i3, "args"@) {
                                    Some(i4) => match p_arr(s, i4) {
                                        Some((vs, i5)) => match tok(s, i5, '}') {
                                            Some(i6) => Some((RespV::Pong { args: vs }, i6)),
                                            None => None,
                                        },
                                        None => None,
                                    },
                                    None => None,
                                },
                                None => None,
                            }
                        } else {
                            None
                        };
                        match inner {
                            Some((r, i3)) => match tok(s, i3, '}') {
                                Some(i4) => Some((r, i4)),
                                None => None,
                            },
                            None => None,
                        }
                    },
                    None => None,
                },
                None => None,
            },
            None => None,
        }
    }
}

/// A wrapped command: `{"uuid":"...","cmd":<command>}`.
pub open spec fn p_wc(s: Seq<char>, i: int) -> Option<(WcV, int)> {
    match tok(s, i, '{') {
        Some(i1) => match p_key(s, i1, "uuid"@) {
            Some(i2) => match p_uidval(s, i2) {
                Some((u, i3)) => match tok(s, i3, ',') {
                    Some(i4) => match p_key(s, i4, "cmd"@) {
                        Some(i5) => match p_cmd(s, i5) {
                            Some((c, i6)) => match tok(s, i6, '}') {
                                Some(i7) => Some((WcV { uuid: u, cmd: c }, i7)),
                                None => None,
                            },
                            None => None,
                        },
                        None => None,
                    },
                    None => None,
                },
                None => None,
            },
            None => None,
        },
        None => None,
    }
}

/// A wrapped response: `{"uuid":"...","res":<response>}`.
pub open spec fn p_wr(s: Seq<char>, i: int) -> Option<(WrV, int)> {
    match tok(s, i, '{') {
        Some(i1) => match p_key(s, i1, "uuid"@) {
            Some(i2) => match p_uidval(s, i2) {
                Some((u, i3)) => match tok(s, i3, ',') {
                    Some(i4) => match p_key(s, i4, "res"@) {
                        Some(i5) => match p_resp(s, i5) {
                            Some((r, i6)) => match tok(s, i6, '}') {
                                Some(i7) => Some((WrV { uuid: u, res: r }, i7)),
                                None => None,
                            },
                            None => None,
                        },
                        None => None,
                    },
                    None => None,
                },
                None => None,
            },
            None => None,
        },
        None => None,
    }
}

/// Only whitespace remains from `i` on.
pub open spec fn only_ws_after(s: Seq<char>, i: int) -> bool {
    skip_ws(s, i) == s.len()
}

/// The whole text is one command.
pub open spec fn p_cmd_text(s: Seq<char>) -> Option<CmdV> {
    match p_cmd(s, 0) {
        Some((c, j)) => if only_ws_after(s, j) {
            Some(c)
        } else {
            None
        },
        None => None,
    }
}

pub open spec fn p_resp_text(s: Seq<char>) -> Option<RespV> {
    match p_resp(s, 0) {
        Some((c, j)) => if only_ws_after(s, j) {
            Some(c)
        } else {
            None
        },
        None => None,
    }
}

pub open spec fn p_wc_text(s: Seq<char>) -> Option<WcV> {
    match p_wc(s, 0) {
        Some((c, j)) => if only_ws_after(s, j) {
            Some(c)
        } else {
            None
        },
        None => None,
    }
}

pub open spec fn p_wr_text(s: Seq<char>) -> Option<WrV> {
    match p_wr(s, 0) {
        Some((c, j)) => if only_ws_after(s, j) {
            Some(c)
        } else {
            None
        },
        None => None,
    }
}

} // verus!
