//! The backtest definition's text form — what a `StartBacktest` command
//! carries — and the snapshot encodings of the engine's handle and broker
//! lists, in the same wire grammar as the message codec.

use vstd::prelude::*;
use vstd::string::StringExecFns;
use crate::backtest::{spec_apply_control, BacktestCommand, BacktestDefinition, BacktestHandle,
    BacktestState, BacktestType, Backtester, DataDest, DataSource, SimBroker};
use crate::codec::{e_key, e_nval, e_sval, e_tok, p_key, p_sval, tok, ws_end};
use crate::commands::SimBrokerSettings;
use crate::commands::{Command, Response};
use crate::ids::{spec_uid_chars, uid_hyphenated, Uid};
use crate::json::{enc_jstr, enc_u64, enc_uid};
use crate::messages::{enc_arr, enc_f1, enc_f2};
use crate::registry::{find_key, lemma_find_key};
use crate::wire::{push_arr, push_jstr, push_u64v, push_uidv};
use crate::json::{parse_jstr, parse_u64, skip_ws};
use crate::strutil::{chars_eq_str, chars_to_string};

verus! {

// ---------------------------------------------------------------------------
// views
// ---------------------------------------------------------------------------

pub enum BtV {
    Fast { delay_ms: u64 },
    Live,
}

impl View for BacktestType {
    type V = BtV;

    open spec fn view(&self) -> BtV {
        match self {
            BacktestType::Fast { delay_ms } => BtV::Fast { delay_ms: *delay_ms },
            BacktestType::Live => BtV::Live,
        }
    }
}

pub enum DsV {
    Flatfile,
    RedisChannel { host: Seq<char>, channel: Seq<char> },
    Postgres,
    Random,
}

impl View for DataSource {
    type V = DsV;

    open spec fn view(&self) -> DsV {
        match self {
            DataSource::Flatfile => DsV::Flatfile,
            DataSource::RedisChannel { host, channel } => DsV::RedisChannel {
                host: host@,
                channel: channel@,
            },
            DataSource::Postgres => DsV::Postgres,
            DataSource::Random => DsV::Random,
        }
    }
}

pub enum DdV {
    RedisChannel { host: Seq<char>, channel: Seq<char> },
    Console,
    Null,
    SimBroker { uuid: u128 },
}

impl View for DataDest {
    type V = DdV;

    open spec fn view(&self) -> DdV {
        match self {
            DataDest::RedisChannel { host, channel } => DdV::RedisChannel {
                host: host@,
                channel: channel@,
            },
            DataDest::Console => DdV::Console,
            DataDest::Null => DdV::Null,
            DataDest::SimBroker { uuid } => DdV::SimBroker { uuid: uuid.bits },
        }
    }
}

pub struct DefV {
    pub start_time: Option<u64>,
    pub max_tick_n: Option<u64>,
    pub max_timestamp: Option<u64>,
    pub symbol: Seq<char>,
    pub backtest_type: BtV,
    pub data_source: DsV,
    pub data_dest: DdV,
    pub broker_settings: SimBrokerSettings,
}

impl View for BacktestDefinition {
    type V = DefV;

    open spec fn view(&self) -> DefV {
        DefV {
            start_time: self.start_time,
            max_tick_n: self.max_tick_n,
            max_timestamp: self.max_timestamp,
            symbol: self.symbol@,
            backtest_type: self.backtest_type@,
            data_source: self.data_source@,
            data_dest: self.data_dest@,
            broker_settings: self.broker_settings,
        }
    }
}

// ---------------------------------------------------------------------------
// spec parsers
// ---------------------------------------------------------------------------

/// `null` or a decimal, with leading whitespace skipped.
pub open spec fn p_opt_u64(s: Seq<char>, i: int) -> Option<(Option<u64>, int)> {
    let k = skip_ws(s, i);
    if 0 <= k && k + 4 <= s.len() && s[k] == 'n' && s[k + 1] == 'u' && s[k + 2] == 'l'
        && s[k + 3] == 'l' {
        Some((None, k + 4))
    } else {
        match parse_u64(s, k) {
            Some((v, j)) => Some((Some(v), j)),
            None => None,
        }
    }
}

/// A timing policy: `"Live"` or `{"Fast":{"delay_ms":n}}`.
pub open spec fn p_bt(s: Seq<char>, i: int) -> Option<(BtV, int)> {
    let k = skip_ws(s, i);
    if 0 <= k < s.len() && s[k] == '"' {
        match parse_jstr(s, k) {
            Some((t, j)) => if t == "Live"@ {
                Some((BtV::Live, j))
            } else {
                None
            },
            None => None,
        }
    } else {
        match tok(s, i, '{') {
            Some(i1) => match p_sval(s, i1) {
                Some((t, j)) => if t == "Fast"@ {
                    match tok(s, j, ':') {
                        Some(i2) => match crate::messages::p_f1_u(s, i2, "delay_ms"@) {
                            Some((n, i3)) => match tok(s, i3, '}') {
                                Some(i4) => Some((BtV::Fast { delay_ms: n }, i4)),
                                None => None,
                            },
                            None => None,
                        },
                        None => None,
                    }
                } else {
                    None
                },
                None => None,
            },
            None => None,
        }
    }
}

/// A data source: a bare tag or `{"RedisChannel":{"host":..,"channel":..}}`.
pub open spec fn p_ds(s: Seq<char>, i: int) -> Option<(DsV, int)> {
    let k = skip_ws(s, i);
    if 0 <= k < s.len() && s[k] == '"' {
        match parse_jstr(s, k) {
            Some((t, j)) => if t == "Flatfile"@ {
                Some((DsV::Flatfile, j))
            } else if t == "Postgres"@ {
                Some((DsV::Postgres, j))
            } else if t == "Random"@ {
                Some((DsV::Random, j))
            } else {
                None
            },
            None => None,
        }
    } else {
        match tok(s, i, '{') {
            Some(i1) => match p_sval(s, i1) {
                Some((t, j)) => if t == "RedisChannel"@ {
                    match tok(s, j, ':') {
                        Some(i2) => match crate::messages::p_f2_s_s(s, i2, "host"@, "channel"@) {
                            Some(((h, c), i3)) => match tok(s, i3, '}') {
                                Some(i4) => Some((DsV::RedisChannel { host: h, channel: c }, i4)),
                                None => None,
                            },
                            None => None,
                        },
                        None => None,
                    }
                } else {
                    None
                },
                None => None,
            },
            None => None,
        }
    }
}

/// A data destination: a bare tag, a channel object, or a broker reference.
pub open spec fn p_dd(s: Seq<char>, i: int) -> Option<(DdV, int)> {
    let k = skip_ws(s, i);
    if 0 <= k < s.len() && s[k] == '"' {
        match parse_jstr(s, k) {
            Some((t, j)) => if t == "Console"@ {
                Some((DdV::Console, j))
            } else if t == "Null"@ {
                Some((DdV::Null, j))
            } else {
                None
            },
            None => None,
        }
    } else {
        match tok(s, i, '{') {
            Some(i1) => match p_sval(s, i1) {
                Some((t, j)) => match tok(s, j, ':') {
                    Some(i2) => {
                        let inner: Option<(DdV, int)> = if t == "RedisChannel"@ {
                            match crate::messages::p_f2_s_s(s, i2, "host"@, "channel"@) {
                                Some(((h, c), i3)) => Some(
                                    (DdV::RedisChannel { host: h, channel: c }, i3),
                                ),
                                None => None,
                            }
                        } else if t == "SimBroker"@ {
                            match crate::messages::p_f1_uid(s, i2, "uuid"@) {
                                Some((u, i3)) => Some((DdV::SimBroker { uuid: u }, i3)),
                                None => None,
                            }
                        } else {
                            None
                        };
                        match inner {
                            Some((d, i3)) => match tok(s, i3, '}') {
                                Some(i4) => Some((d, i4)),
                                None => None,
                            },
                            None => None,
                        }
                    },
                    None => None,
                },
                None => None,
            },
            None => None,
        }
    }
}

/// One `"key": value ,` step: the key, then the value parser is the
/// caller's; this spec only sequences keys and commas, so the whole
/// definition parser is written out below.
pub open spec fn p_def(s: Seq<char>, i: int) -> Option<(DefV, int)> {
    match tok(s, i, '{') {
        Some(i1) => match p_key(s, i1, "start_time"@) {
            Some(i2) => match p_opt_u64(s, i2) {
                Some((st, i3)) => match tok(s, i3, ',') {
                    Some(i4) => match p_key(s, i4, "max_tick_n"@) {
                        Some(i5) => match p_opt_u64(s, i5) {
                            Some((mn, i6)) => match tok(s, i6, ',') {
                                Some(i7) => match p_key(s, i7, "max_timestamp"@) {
                                    Some(i8) => match p_opt_u64(s, i8) {
                                        Some((mt, i9)) => p_def_rest(s, i9, st, mn, mt),
                                        None => None,
                                    },
                                    None => None,
                                },
                                None => None,
                            },
                            None => None,
                        },
                        None => None,
                    },
                    None => None,
                },
                None => None,
            },
            None => None,
        },
        None => None,
    }
}

/// The tail of the definition object, after the three optional bounds.
pub open spec fn p_def_rest(
    s: Seq<char>,
    i: int,
    st: Option<u64>,
    mn: Option<u64>,
    mt: Option<u64>,
) -> Option<(DefV, int)> {
    match tok(s, i, ',') {
        Some(i1) => match p_key(s, i1, "symbol"@) {
            Some(i2) => match p_sval(s, i2) {
                Some((sym, i3)) => match tok(s, i3, ',') {
                    Some(i4) => match p_key(s, i4, "backtest_type"@) {
                        Some(i5) => match p_bt(s, i5) {
                            Some((bt, i6)) => match tok(s, i6, ',') {
                                Some(i7) => match p_key(s, i7, "data_source"@) {
                                    Some(i8) => match p_ds(s, i8) {
                                        Some((ds, i9)) => match tok(s, i9, ',') {
                                            Some(i10) => match p_key(s, i10, "data_dest"@) {
                                                Some(i11) => match p_dd(s, i11) {
                                                    Some((dd, i12)) => match tok(s, i12, ',') {
                                                        Some(i13) => match p_key(
                                                            s,
                                                            i13,
                                                            "broker_settings"@,
                                                        ) {
                                                            Some(i14) => match
                                                                crate::messages::p_f1_u(
                                                                s,
                                                                i14,
                                                                "starting_balance"@,
                                                            ) {
                                                                Some((sb, i15)) => match tok(
                                                                    s,
                                                                    i15,
                                                                    '}',
                                                                ) {
                                                                    Some(i16) => Some(
                                                                        ((DefV {
                                                                            start_time: st,
                                                                            max_tick_n: mn,
                                                                            max_timestamp: mt,
                                                                            symbol: sym,
                                                                            backtest_type: bt,
                                                                            data_source: ds,
                                                                            data_dest: dd,
                                                                            broker_settings:
                                                                                (SimBrokerSettings {
                                                                                starting_balance:
                                                                                    sb,
                                                                            }),
                                                                        }), i16),
                                                                    ),
                                                                    None => None,
                                                                },
                                                                None => None,
                                                            },
                                                            None => None,
                                                        },
                                                        None => None,
                                                    },
                                                    None => None,
                                                },
                                                None => None,
                                            },
                                            None => None,
                                        },
                                        None => None,
                                    },
                                    None => None,
                                },
                                None => None,
                            },
                            None => None,
                        },
                        None => None,
                    },
                    None => None,
                },
                None => None,
            },
            None => None,
        },
        None => None,
    }
}

/// The whole text is one backtest definition.
pub open spec fn p_def_text(s: Seq<char>) -> Option<DefV> {
    match p_def(s, 0) {
        Some((d, j)) => if crate::messages::only_ws_after(s, j) {
            Some(d)
        } else {
            None
        },
        None => None,
    }
}

// ---------------------------------------------------------------------------
// exec parsers
// ---------------------------------------------------------------------------

fn d_opt_u64(v: &Vec<char>, i: usize) -> (r: Option<(Option<u64>, usize)>)
    requires
        i <= v@.len(),
    ensures
        match r {
            Some((x, j)) => p_opt_u64(v@, i as int) == Some((x, j as int)) && i < j <= v@.len(),
            None => p_opt_u64(v@, i as int) is None,
        },
{
    let k = ws_end(v, i);
    if v.len() - k >= 4 && v[k] == 'n' && v[k + 1] == 'u' && v[k + 2] == 'l' && v[k + 3] == 'l' {
        return Some((None, k + 4));
    }
    proof {
        crate::json::lemma_skip_ws_idem(v@, i as int);
    }
    match e_nval(v, k) {
        Some((n, j)) => Some((Some(n), j)),
        None => None,
    }
}

fn d_bt(v: &Vec<char>, i: usize) -> (r: Option<(BacktestType, usize)>)
    requires
        i <= v@.len(),
    ensures
        match r {
            Some((x, j)) => p_bt(v@, i as int) == Some((x@, j as int)) && i < j <= v@.len(),
            None => p_bt(v@, i as int) is None,
        },
{
    let k = ws_end(v, i);
    if k < v.len() && v[k] == '"' {
        let (t, j) = match e_sval(v, i) { Some(p) => p, None => { return None; } };
        if chars_eq_str(&t, "Live") {
            Some((BacktestType::Live, j))
        } else {
            None
        }
    } else {
        let i1 = match e_tok(v, i, '{') { Some(x) => x, None => { return None; } };
        let (t, j) = match e_sval(v, i1) { Some(p) => p, None => { return None; } };
        if !chars_eq_str(&t, "Fast") {
            return None;
        }
        let i2 = match e_tok(v, j, ':') { Some(x) => x, None => { return None; } };
        let (n, i3) = match crate::wire::d_f1_u(v, i2, "delay_ms") {
            Some(p) => p,
            None => { return None; },
        };
        let i4 = match e_tok(v, i3, '}') { Some(x) => x, None => { return None; } };
        Some((BacktestType::Fast { delay_ms: n }, i4))
    }
}

fn d_ds(v: &Vec<char>, i: usize) -> (r: Option<(DataSource, usize)>)
    requires
        i <= v@.len(),
    ensures
        match r {
            Some((x, j)) => p_ds(v@, i as int) == Some((x@, j as int)) && i < j <= v@.len(),
            None => p_ds(v@, i as int) is None,
        },
{
    let k = ws_end(v, i);
    if k < v.len() && v[k] == '"' {
        let (t, j) = match e_sval(v, i) { Some(p) => p, None => { return None; } };
        if chars_eq_str(&t, "Flatfile") {
            Some((DataSource::Flatfile, j))
        } else if chars_eq_str(&t, "Postgres") {
            Some((DataSource::Postgres, j))
        } else if chars_eq_str(&t, "Random") {
            Some((DataSource::Random, j))
        } else {
            None
        }
    } else {
        let i1 = match e_tok(v, i, '{') { Some(x) => x, None => { return None; } };
        let (t, j) = match e_sval(v, i1) { Some(p) => p, None => { return None; } };
        if !chars_eq_str(&t, "RedisChannel") {
            return None;
        }
        let i2 = match e_tok(v, j, ':') { Some(x) => x, None => { return None; } };
        let ((h, c), i3) = match crate::wire::d_f2_s_s(v, i2, "host", "channel") {
            Some(p) => p,
            None => { return None; },
        };
        let i4 = match e_tok(v, i3, '}') { Some(x) => x, None => { return None; } };
        Some((DataSource::RedisChannel { host: h, channel: c }, i4))
    }
}

fn d_dd(v: &Vec<char>, i: usize) -> (r: Option<(DataDest, usize)>)
    requires
        i <= v@.len(),
    ensures
        match r {
            Some((x, j)) => p_dd(v@, i as int) == Some((x@, j as int)) && i < j <= v@.len(),
            None => p_dd(v@, i as int) is None,
        },
{
    let k = ws_end(v, i);
    if k < v.len() && v[k] == '"' {
        let (t, j) = match e_sval(v, i) { Some(p) => p, None => { return None; } };
        if chars_eq_str(&t, "Console") {
            Some((DataDest::Console, j))
        } else if chars_eq_str(&t, "Null") {
            Some((DataDest::Null, j))
        } else {
            None
        }
    } else {
        let i1 = match e_tok(v, i, '{') { Some(x) => x, None => { return None; } };
        let (t, j) = match e_sval(v, i1) { Some(p) => p, None => { return None; } };
        let i2 = match e_tok(v, j, ':') { Some(x) => x, None => { return None; } };
        let inner: Option<(DataDest, usize)> = if chars_eq_str(&t, "RedisChannel") {
            match crate::wire::d_f2_s_s(v, i2, "host", "channel") {
                Some(((h, c), i3)) => Some((DataDest::RedisChannel { host: h, channel: c }, i3)),
                None => None,
            }
        } else if chars_eq_str(&t, "SimBroker") {
            match crate::wire::d_f1_uid(v, i2, "uuid") {
                Some((u, i3)) => Some((DataDest::SimBroker { uuid: Uid { bits: u } }, i3)),
                None => None,
            }
        } else {
            None
        };
        match inner {
            Some((d, i3)) => match e_tok(v, i3, '}') {
                Some(i4) => Some((d, i4)),
                None => None,
            },
            None => None,
        }
    }
}

#[verifier::rlimit(100)]
fn d_def(v: &Vec<char>, i: usize) -> (r: Option<(BacktestDefinition, usize)>)
    requires
        i <= v@.len(),
    ensures
        match r {
            Some((x, j)) => p_def(v@, i as int) == Some((x@, j as int)) && i < j <= v@.len(),
            None => p_def(v@, i as int) is None,
        },
{
    let i1 = match e_tok(v, i, '{') { Some(x) => x, None => { return None; } };
    let i2 = match e_key(v, i1, "start_time") { Some(x) => x, None => { return None; } };
    let (st, i3) = match d_opt_u64(v, i2) { Some(p) => p, None => { return None; } };
    let i4 = match e_tok(v, i3, ',') { Some(x) => x, None => { return None; } };
    let i5 = match e_key(v, i4, "max_tick_n") { Some(x) => x, None => { return None; } };
    let (mn, i6) = match d_opt_u64(v, i5) { Some(p) => p, None => { return None; } };
    let i7 = match e_tok(v, i6, ',') { Some(x) => x, None => { return None; } };
    let i8 = match e_key(v, i7, "max_timestamp") { Some(x) => x, None => { return None; } };
    let (mt, i9) = match d_opt_u64(v, i8) { Some(p) => p, None => { return None; } };
    let i10 = match e_tok(v, i9, ',') { Some(x) => x, None => { return None; } };
    let i11 = match e_key(v, i10, "symbol") { Some(x) => x, None => { return None; } };
    let (sym, i12) = match e_sval(v, i11) { Some(p) => p, None => { return None; } };
    let i13 = match e_tok(v, i12, ',') { Some(x) => x, None => { return None; } };
    let i14 = match e_key(v, i13, "backtest_type") { Some(x) => x, None => { return None; } };
    let (bt, i15) = match d_bt(v, i14) { Some(p) => p, None => { return None; } };
    let i16 = match e_tok(v, i15, ',') { Some(x) => x, None => { return None; } };
    let i17 = match e_key(v, i16, "data_source") { Some(x) => x, None => { return None; } };
    let (ds, i18) = match d_ds(v, i17) { Some(p) => p, None => { return None; } };
    let i19 = match e_tok(v, i18, ',') { Some(x) => x, None => { return None; } };
    let i20 = match e_key(v, i19, "data_dest") { Some(x) => x, None => { return None; } };
    let (dd, i21) = match d_dd(v, i20) { Some(p) => p, None => { return None; } };
    let i22 = match e_tok(v, i21, ',') { Some(x) => x, None => { return None; } };
    let i23 = match e_key(v, i22, "broker_settings") { Some(x) => x, None => { return None; } };
    let (sb, i24) = match crate::wire::d_f1_u(v, i23, "starting_balance") {
        Some(p) => p,
        None => { return None; },
    };
    let i25 = match e_tok(v, i24, '}') { Some(x) => x, None => { return None; } };
    Some((BacktestDefinition {
        start_time: st,
        max_tick_n: mn,
        max_timestamp: mt,
        symbol: chars_to_string(&sym),
        backtest_type: bt,
        data_source: ds,
        data_dest: dd,
        broker_settings: SimBrokerSettings { starting_balance: sb },
    }, i25))
}

impl BacktestDefinition {
    /// Decodes a backtest definition from the text a `StartBacktest`
    /// command carries; exactly the grammatical texts yield a definition.
    pub fn from_str(raw: &str) -> (r: Result<BacktestDefinition, ()>)
        ensures
            match p_def_text(raw@) {
                Some(d) => r matches Ok(x) && x@ == d,
                None => r is Err,
            },
    {
        let mut v: Vec<char> = Vec::new();
        crate::strutil::push_str_chars(&mut v, raw);
        match d_def(&v, 0) {
            Some((d, j)) => {
                let e = ws_end(&v, j);
                if e == v.len() {
                    Ok(d)
                } else {
                    Err(())
                }
            },
            None => Err(()),
        }
    }
}


// ---------------------------------------------------------------------------
// snapshot encodings
// ---------------------------------------------------------------------------

pub open spec fn enc_bt(b: BtV) -> Seq<char> {
    match b {
        BtV::Live => enc_jstr("Live"@),
        BtV::Fast { delay_ms } => crate::codec::enc_obj("Fast"@, enc_f1(
            "delay_ms"@,
            enc_u64(delay_ms as int),
        )),
    }
}

pub open spec fn enc_ds(d: DsV) -> Seq<char> {
    match d {
        DsV::Flatfile => enc_jstr("Flatfile"@),
        DsV::Postgres => enc_jstr("Postgres"@),
        DsV::Random => enc_jstr("Random"@),
        DsV::RedisChannel { host, channel } => crate::codec::enc_obj("RedisChannel"@, enc_f2(
            "host"@,
            enc_jstr(host),
            "channel"@,
            enc_jstr(channel),
        )),
    }
}

pub open spec fn enc_dd(d: DdV) -> Seq<char> {
    match d {
        DdV::Console => enc_jstr("Console"@),
        DdV::Null => enc_jstr("Null"@),
        DdV::RedisChannel { host, channel } => crate::codec::enc_obj("RedisChannel"@, enc_f2(
            "host"@,
            enc_jstr(host),
            "channel"@,
            enc_jstr(channel),
        )),
        DdV::SimBroker { uuid } => crate::codec::enc_obj("SimBroker"@, enc_f1(
            "uuid"@,
            enc_uid(uuid),
        )),
    }
}

/// One entry of a `ListBacktests` reply: the handle's id and its view.
pub open spec fn enc_handle(id: u128, h: BacktestHandle) -> Seq<char> {
    seq!['{'] + crate::codec::enc_entry("uuid"@, enc_uid(id)) + seq![',']
        + crate::codec::enc_entry("symbol"@, enc_jstr(h.symbol@)) + seq![',']
        + crate::codec::enc_entry("backtest_type"@, enc_bt(h.backtest_type@)) + seq![',']
        + crate::codec::enc_entry("data_source"@, enc_ds(h.data_source@)) + seq![',']
        + crate::codec::enc_entry("endpoint"@, enc_dd(h.endpoint@)) + seq!['}']
}

pub open spec fn enc_handle_items(entries: Seq<(Uid, BacktestHandle)>) -> Seq<char>
    decreases entries.len(),
{
    if entries.len() == 0 {
        Seq::empty()
    } else if entries.len() == 1 {
        enc_handle(entries[0].0.bits, entries[0].1)
    } else {
        enc_handle_items(entries.drop_last()) + seq![','] + enc_handle(
            entries.last().0.bits,
            entries.last().1,
        )
    }
}

/// The `ListBacktests` snapshot text.
pub open spec fn enc_handle_list(entries: Seq<(Uid, BacktestHandle)>) -> Seq<char> {
    seq!['['] + enc_handle_items(entries) + seq![']']
}

/// The hyphenated id texts of the brokers, in registry order.
pub open spec fn uid_strs(entries: Seq<(Uid, SimBroker)>) -> Seq<Seq<char>> {
    Seq::new(entries.len(), |i: int| spec_uid_chars(entries[i].0.bits))
}

/// The `ListSimbrokers` snapshot text.
pub open spec fn enc_uid_list(entries: Seq<(Uid, SimBroker)>) -> Seq<char> {
    enc_arr(uid_strs(entries))
}

fn push_bt(out: &mut Vec<char>, b: &BacktestType)
    ensures
        final(out)@ == old(out)@ + enc_bt(b@),
{
    match b {
        BacktestType::Live => {
            push_jstr(out, "Live");
        },
        BacktestType::Fast { delay_ms } => {
            out.push('{');
            push_jstr(out, "Fast");
            out.push(':');
            out.push('{');
            push_jstr(out, "delay_ms");
            out.push(':');
            push_u64v(out, *delay_ms);
            out.push('}');
            out.push('}');
            proof {
                assert(out@ =~= old(out)@ + enc_bt(b@));
            }
        },
    }
}

fn push_ds(out: &mut Vec<char>, d: &DataSource)
    ensures
        final(out)@ == old(out)@ + enc_ds(d@),
{
    match d {
        DataSource::Flatfile => {
            push_jstr(out, "Flatfile");
        },
        DataSource::Postgres => {
            push_jstr(out, "Postgres");
        },
        DataSource::Random => {
            push_jstr(out, "Random");
        },
        DataSource::RedisChannel { host, channel } => {
            out.push('{');
            push_jstr(out, "RedisChannel");
            out.push(':');
            out.push('{');
            push_jstr(out, "host");
            out.push(':');
            push_jstr(out, host.as_str());
            out.push(',');
            push_jstr(out, "channel");
            out.push(':');
            push_jstr(out, channel.as_str());
            out.push('}');
            out.push('}');
            proof {
                assert(out@ =~= old(out)@ + enc_ds(d@));
            }
        },
    }
}

fn push_dd(out: &mut Vec<char>, d: &DataDest)
    ensures
        final(out)@ == old(out)@ + enc_dd(d@),
{
    match d {
        DataDest::Console => {
            push_jstr(out, "Console");
        },
        DataDest::Null => {
            push_jstr(out, "Null");
        },
        DataDest::RedisChannel { host, channel } => {
            out.push('{');
            push_jstr(out, "RedisChannel");
            out.push(':');
            out.push('{');
            push_jstr(out, "host");
            out.push(':');
            push_jstr(out, host.as_str());
            out.push(',');
            push_jstr(out, "channel");
            out.push(':');
            push_jstr(out, channel.as_str());
            out.push('}');
            out.push('}');
            proof {
                assert(out@ =~= old(out)@ + enc_dd(d@));
            }
        },
        DataDest::SimBroker { uuid } => {
            out.push('{');
            push_jstr(out, "SimBroker");
            out.push(':');
            out.push('{');
            push_jstr(out, "uuid");
            out.push(':');
            push_uidv(out, *uuid);
            out.push('}');
            out.push('}');
            proof {
                assert(out@ =~= old(out)@ + enc_dd(d@));
            }
        },
    }
}

#[verifier::rlimit(100)]
fn push_handle(out: &mut Vec<char>, id: Uid, h: &BacktestHandle)
    ensures
        final(out)@ == old(out)@ + enc_handle(id.bits, *h),
{
    out.push('{');
    push_jstr(out, "uuid");
    out.push(':');
    push_uidv(out, id);
    out.push(',');
    push_jstr(out, "symbol");
    out.push(':');
    push_jstr(out, h.symbol.as_str());
    out.push(',');
    push_jstr(out, "backtest_type");
    out.push(':');
    push_bt(out, &h.backtest_type);
    out.push(',');
    push_jstr(out, "data_source");
    out.push(':');
    push_ds(out, &h.data_source);
    out.push(',');
    push_jstr(out, "endpoint");
    out.push(':');
    push_dd(out, &h.endpoint);
    out.push('}');
    proof {
        assert(out@ =~= old(out)@ + enc_handle(id.bits, *h));
    }
}

/// What the backtester does beyond replying.
#[derive(PartialEq, Debug, Clone)]
pub enum BacktesterEffect {
    /// Schedule the process's own exit after the grace period.
    ScheduleExit,
}

/// `spec_dest_ok`, phrased over the destination's view.
pub open spec fn spec_dest_ok_v(b: Backtester, dest: DdV, symbol: Seq<char>) -> bool {
    match dest {
        DdV::SimBroker { uuid } => match b.simbrokers.spec_get((Uid { bits: uuid })) {
            Some(br) => !br.spec_has_symbol(symbol),
            None => false,
        },
        _ => true,
    }
}

proof fn lemma_dest_ok_view(b: Backtester, dest: DataDest, symbol: Seq<char>)
    ensures
        b.spec_dest_ok(dest, symbol) == spec_dest_ok_v(b, dest@, symbol),
{
    match dest {
        DataDest::SimBroker { uuid } => {
            assert((Uid { bits: uuid.bits }) == uuid);
        },
        _ => {},
    }
}

/// The outcome of a `Pause`, `Resume` or `Stop` request on a backtest:
/// success exactly when the id is registered, the exact error otherwise,
/// and the one handle moved to the event's target state.
pub open spec fn spec_control_post(
    pre: Backtester,
    post: Backtester,
    resp: Response,
    id: Uid,
    c: BacktestCommand,
) -> bool {
    &&& (resp == Response::Okay <==> pre.running_backtests.spec_get(id) is Some)
    &&& (resp != Response::Okay ==> post == pre && (resp matches Response::Error { status }
        && status@ == "No backtest with that uuid!"@))
    &&& (resp == Response::Okay ==> ({
        let e = pre.running_backtests.entries@;
        let k = find_key(e, id);
        &&& post.uuid == pre.uuid
        &&& post.simbrokers == pre.simbrokers
        &&& (if c == BacktestCommand::Stop {
            post.running_backtests.entries@ == e.remove(k)
        } else {
            post.running_backtests.entries@ == e.update(k, (id, (BacktestHandle {
                symbol: e[k].1.symbol,
                backtest_type: e[k].1.backtest_type,
                data_source: e[k].1.data_source,
                endpoint: e[k].1.endpoint,
                state: spec_apply_control(c),
            })))
        })
    }))
}

impl Backtester {
    /// Applies one control request arriving as a command, with `Stop` also
    /// removing the handle, as the listener does.
    fn control(&mut self, uuid: Uid, c: BacktestCommand) -> (resp: Response)
        requires
            old(self).wf(),
        ensures
            final(self).wf(),
            spec_control_post(*old(self), *final(self), resp, uuid, c),
            c == BacktestCommand::Stop ==> final(self).running_backtests.spec_get(uuid) is None,
    {
        proof {
            lemma_find_key(self.running_backtests.entries@, uuid);
        }
        match self.send_backtest_cmd(&uuid, c) {
            Err(_) => Response::Error { status: String::from_str("No backtest with that uuid!") },
            Ok(_) => {
                if let BacktestCommand::Stop = c {
                    let ghost pre_e = old(self).running_backtests.entries@;
                    let ghost k = find_key(pre_e, uuid);
                    let ghost mid_e = self.running_backtests.entries@;
                    proof {
                        // the stop left the key in place, so the later removal
                        // takes out exactly the original entry
                        lemma_find_key(mid_e, uuid);
                        let km = find_key(mid_e, uuid);
                        assert(mid_e[k].0 == uuid);
                        if km == -1 {
                            assert(false);
                        }
                        if 0 <= km < k {
                            assert(mid_e[km] == pre_e[km]);
                            assert(false);
                        }
                        if km > k {
                            assert(false);
                        }
                        assert(km == k);
                    }
                    self.remove_backtest(&uuid);
                    proof {
                        let post_e = self.running_backtests.entries@;
                        mid_e.remove_ensures(k);
                        pre_e.remove_ensures(k);
                        assert(post_e =~= pre_e.remove(k)) by {
                            assert forall|j: int| 0 <= j < post_e.len()
                                implies post_e[j] == pre_e.remove(k)[j] by {
                                if j < k {
                                    assert(post_e[j] == mid_e[j]);
                                    assert(mid_e[j] == pre_e[j]);
                                } else {
                                    assert(post_e[j] == mid_e[j + 1]);
                                    assert(mid_e[j + 1] == pre_e[j + 1]);
                                }
                            }
                        }
                    }
                }
                Response::Okay
            },
        }
    }

    /// Dispatches one inbound command, as the backtester's listener does:
    /// the reply to publish, and the effects the caller must perform.
    #[verifier::rlimit(100)]
    #[verifier::spinoff_prover]
    pub fn handle_command(&mut self, cmd: Command) -> (r: (Response, Vec<BacktesterEffect>))
        requires
            old(self).wf(),
        ensures
            final(self).wf(),
            final(self).uuid == old(self).uuid,
            cmd == Command::Ping ==> (r.0 matches Response::Pong { args } && args@.len() == 1
                && args@[0]@ == spec_uid_chars(old(self).uuid.bits)) && *final(self) == *old(self)
                && r.1@.len() == 0,
            cmd == Command::Type ==> (r.0 matches Response::Info { info }
                && info@ == "Backtester"@) && *final(self) == *old(self) && r.1@.len() == 0,
            cmd == Command::Kill ==> (r.0 is Info && r.1@.len() == 1
                && r.1@[0] == BacktesterEffect::ScheduleExit) && *final(self) == *old(self),
            (cmd matches Command::PauseBacktest { uuid } ==> r.1@.len() == 0
                && spec_control_post(*old(self), *final(self), r.0, uuid,
                    BacktestCommand::Pause)),
            (cmd matches Command::ResumeBacktest { uuid } ==> r.1@.len() == 0
                && spec_control_post(*old(self), *final(self), r.0, uuid,
                    BacktestCommand::Resume)),
            (cmd matches Command::StopBacktest { uuid } ==> r.1@.len() == 0
                && spec_control_post(*old(self), *final(self), r.0, uuid, BacktestCommand::Stop)
                && final(self).running_backtests.spec_get(uuid) is None),
            cmd == Command::ListBacktests ==> (r.0 matches Response::Info { info }
                && info@ == enc_handle_list(old(self).running_backtests.entries@))
                && *final(self) == *old(self) && r.1@.len() == 0,
            cmd == Command::ListSimbrokers ==> (r.0 matches Response::Info { info }
                && info@ == enc_uid_list(old(self).simbrokers.entries@))
                && *final(self) == *old(self) && r.1@.len() == 0,
            (cmd matches Command::SpawnSimbroker { settings } ==> r.1@.len() == 0
                && final(self).running_backtests == old(self).running_backtests
                && (r.0 matches Response::Info { info } && exists|b: u128|
                    info@ == spec_uid_chars(b)
                        && (final(self).simbrokers.spec_get((Uid { bits: b })) matches Some(br)
                            && br.settings == settings && br.symbols@.len() == 0))),
            (cmd matches Command::StartBacktest { definition } ==> r.1@.len() == 0
                && (match p_def_text(definition@) {
                    None => r.0 is Error && *final(self) == *old(self),
                    Some(d) => {
                        &&& (r.0 is Info <==> spec_dest_ok_v(*old(self), d.data_dest, d.symbol))
                        &&& (r.0 is Error ==> *final(self) == *old(self))
                        &&& (r.0 matches Response::Info { info } ==> exists|b: u128|
                            info@ == spec_uid_chars(b)
                                && (final(self).running_backtests.spec_get((Uid { bits: b }))
                                    matches Some(h) && h.symbol@ == d.symbol
                                    && h.backtest_type@ == d.backtest_type
                                    && h.data_source@ == d.data_source
                                    && h.endpoint@ == d.data_dest
                                    && h.state == BacktestState::Paused))
                    },
                })),
            !(cmd matches Command::Ping || cmd matches Command::Type || cmd matches Command::Kill
                || cmd matches Command::PauseBacktest { .. }
                || cmd matches Command::ResumeBacktest { .. }
                || cmd matches Command::StopBacktest { .. }
                || cmd matches Command::ListBacktests
                || cmd matches Command::ListSimbrokers
                || cmd matches Command::SpawnSimbroker { .. }
                || cmd matches Command::StartBacktest { .. })
                ==> (r.0 matches Response::Error { status }
                    && status@ == "Backtester doesn't recognize that command."@)
                    && *final(self) == *old(self) && r.1@.len() == 0,
    {
        let mut effects: Vec<BacktesterEffect> = Vec::new();
        let resp: Response = match cmd {
            Command::Ping => {
                let mut args: Vec<String> = Vec::new();
                args.push(uid_hyphenated(self.uuid));
                Response::Pong { args }
            },
            Command::Type => Response::Info { info: String::from_str("Backtester") },
            Command::Kill => {
                effects.push(BacktesterEffect::ScheduleExit);
                Response::Info {
                    info: String::from_str("Backtester will self-destruct in 3 seconds."),
                }
            },
            Command::PauseBacktest { uuid } => self.control(uuid, BacktestCommand::Pause),
            Command::ResumeBacktest { uuid } => self.control(uuid, BacktestCommand::Resume),
            Command::StopBacktest { uuid } => self.control(uuid, BacktestCommand::Stop),
            Command::ListBacktests => self.list_backtests(),
            Command::ListSimbrokers => self.list_simbrokers(),
            Command::SpawnSimbroker { settings } => {
                let id = self.init_simbroker(settings);
                Response::Info { info: uid_hyphenated(id) }
            },
            Command::StartBacktest { definition } => {
                match BacktestDefinition::from_str(definition.as_str()) {
                    Err(_) => Response::Error {
                        status: String::from_str("Can't parse backtest defition from String"),
                    },
                    Ok(def) => {
                        proof {
                            lemma_dest_ok_view(*self, def.data_dest, def.symbol@);
                        }
                        match self.start_backtest(def) {
                            Ok(id) => Response::Info { info: uid_hyphenated(id) },
                            Err(status) => Response::Error { status },
                        }
                    },
                }
            },
            _ => Response::Error {
                status: String::from_str("Backtester doesn't recognize that command."),
            },
        };
        (resp, effects)
    }

    /// The `ListBacktests` snapshot: every registered handle, encoded.
    #[verifier::rlimit(100)]
    #[verifier::spinoff_prover]
    pub fn list_backtests(&self) -> (r: Response)
        ensures
            r matches Response::Info { info } && info@ == enc_handle_list(
                self.running_backtests.entries@,
            ),
    {
        let mut out: Vec<char> = Vec::new();
        out.push('[');
        let n = self.running_backtests.entries.len();
        let mut i: usize = 0;
        while i < n
            invariant
                n == self.running_backtests.entries@.len(),
                i <= n,
                out@ == seq!['['] + enc_handle_items(
                    self.running_backtests.entries@.subrange(0, i as int),
                ),
            decreases n - i,
        {
            if i > 0 {
                out.push(',');
            }
            let entry = &self.running_backtests.entries[i];
            push_handle(&mut out, entry.0, &entry.1);
            proof {
                let e = self.running_backtests.entries@;
                let pre = e.subrange(0, i as int);
                let post = e.subrange(0, (i + 1) as int);
                assert(post.drop_last() =~= pre);
                assert(post.last() == e[i as int]);
                if i == 0 {
                    assert(enc_handle_items(post) == enc_handle(e[0].0.bits, e[0].1));
                }
                assert(out@ =~= seq!['['] + enc_handle_items(post));
            }
            i += 1;
        }
        out.push(']');
        proof {
            assert(self.running_backtests.entries@.subrange(0, n as int)
                =~= self.running_backtests.entries@);
            assert(out@ =~= enc_handle_list(self.running_backtests.entries@));
        }
        Response::Info { info: chars_to_string(&out) }
    }

    /// The `ListSimbrokers` snapshot: every broker's id text, as an array.
    pub fn list_simbrokers(&self) -> (r: Response)
        ensures
            r matches Response::Info { info } && info@ == enc_uid_list(self.simbrokers.entries@),
    {
        let mut ids: Vec<String> = Vec::new();
        let n = self.simbrokers.entries.len();
        let mut i: usize = 0;
        while i < n
            invariant
                n == self.simbrokers.entries@.len(),
                i <= n,
                ids@.len() == i,
                forall|j: int| 0 <= j < i ==> (#[trigger] ids@[j])@ == spec_uid_chars(
                    self.simbrokers.entries@[j].0.bits,
                ),
            decreases n - i,
        {
            ids.push(uid_hyphenated(self.simbrokers.entries[i].0));
            i += 1;
        }
        let mut out: Vec<char> = Vec::new();
        push_arr(&mut out, &ids);
        proof {
            assert(ids.deep_view() =~= uid_strs(self.simbrokers.entries@));
        }
        Response::Info { info: chars_to_string(&out) }
    }
}

} // verus!
