//! Executable encoders and decoders for the wire codec, each proved equal to
//! its specification, and the public text conversions of the message types.

use vstd::prelude::*;
use crate::codec::{e_key, e_nval, e_sval, e_tok, ws_end};
use crate::commands::{Command, HistTickDst, Response, SimBrokerSettings, WrappedCommand,
    WrappedResponse};
use crate::ids::{push_uid_chars, Uid};
use crate::json::{enc_jstr, enc_u64, enc_uid, esc, lemma_esc_snoc, spec_digit_char};
use crate::messages::{enc_arr, enc_arr_items, enc_cmd, enc_hist, enc_resp, enc_wrapped_cmd,
    enc_wrapped_resp, p_arr, p_arr_items, p_cmd, p_cmd_text, p_dl_fields, p_f1_s, p_f1_u,
    p_f1_uid, p_f2_s_s, p_f2_s_uid, p_hist, p_resp, p_resp_text, p_wc, p_wc_text, p_wr,
    p_wr_text, CmdV, HistV, RespV, WcV, WrV};
use crate::strutil::{chars_eq_str, chars_to_string, push_str_chars};
use crate::codec::{e_uidval, enc_obj};
use crate::messages::enc_f1;

verus! {

// ---------------------------------------------------------------------------
// encoders
// ---------------------------------------------------------------------------

/// Appends the quoted, escaped form of `s`.
pub fn push_jstr(out: &mut Vec<char>, s: &str)
    ensures
        final(out)@ == old(out)@ + enc_jstr(s@),
{
    out.push('"');
    let n = s.unicode_len();
    let mut i: usize = 0;
    while i < n
        invariant
            n == s@.len(),
            i <= n,
            out@ == old(out)@ + seq!['"'] + esc(s@.subrange(0, i as int)),
        decreases n - i,
    {
        let c = s.get_char(i);
        if c == '"' || c == '\\' {
            out.push('\\');
        }
        out.push(c);
        proof {
            lemma_esc_snoc(s@.subrange(0, i as int), c);
            assert(s@.subrange(0, (i + 1) as int) =~= s@.subrange(0, i as int).push(
                s@[i as int],
            ));
            assert(out@ =~= old(out)@ + seq!['"'] + esc(s@.subrange(0, (i + 1) as int)));
        }
        i += 1;
    }
    out.push('"');
    proof {
        assert(s@.subrange(0, n as int) =~= s@);
        assert(out@ =~= old(out)@ + enc_jstr(s@));
    }
}

fn digit_char(d: u64) -> (c: char)
    requires
        d < 10,
    ensures
        c == spec_digit_char(d as int),
{
    if d == 0 { '0' } else if d == 1 { '1' } else if d == 2 { '2' } else if d == 3 { '3' }
    else if d == 4 { '4' } else if d == 5 { '5' } else if d == 6 { '6' } else if d == 7 { '7' }
    else if d == 8 { '8' } else { '9' }
}

/// Appends the decimal form of `n`.
pub fn push_u64v(out: &mut Vec<char>, n: u64)
    ensures
        final(out)@ == old(out)@ + enc_u64(n as int),
    decreases n,
{
    if n < 10 {
        out.push(digit_char(n));
        proof {
            assert(out@ =~= old(out)@ + enc_u64(n as int));
        }
    } else {
        push_u64v(out, n / 10);
        out.push(digit_char(n % 10));
        proof {
            assert(out@ =~= old(out)@ + enc_u64(n as int));
        }
    }
}

/// Appends the quoted hyphenated form of `u`.
pub fn push_uidv(out: &mut Vec<char>, u: Uid)
    ensures
        final(out)@ == old(out)@ + enc_uid(u.bits),
{
    out.push('"');
    push_uid_chars(out, u);
    out.push('"');
    proof {
        assert(out@ =~= old(out)@ + enc_uid(u.bits));
    }
}


/// Appends `{"tag":{"field":"val"}}`.
fn push_obj_s(out: &mut Vec<char>, tag: &str, field: &str, val: &str)
    ensures
        final(out)@ == old(out)@ + enc_obj(tag@, enc_f1(field@,
            enc_jstr(val@))),
{
    out.push('{');
    push_jstr(out, tag);
    out.push(':');
    out.push('{');
    push_jstr(out, field);
    out.push(':');
    push_jstr(out, val);
    out.push('}');
    out.push('}');
    proof {
        assert(out@ =~= old(out)@ + enc_obj(tag@, enc_f1(field@,
            enc_jstr(val@))));
    }
}

/// Appends `{"tag":{"field":n}}`.
fn push_obj_u(out: &mut Vec<char>, tag: &str, field: &str, n: u64)
    ensures
        final(out)@ == old(out)@ + enc_obj(tag@, enc_f1(field@,
            enc_u64(n as int))),
{
    out.push('{');
    push_jstr(out, tag);
    out.push(':');
    out.push('{');
    push_jstr(out, field);
    out.push(':');
    push_u64v(out, n);
    out.push('}');
    out.push('}');
    proof {
        assert(out@ =~= old(out)@ + enc_obj(tag@, enc_f1(field@,
            enc_u64(n as int))));
    }
}

/// Appends `{"tag":{"field":"<uuid>"}}`.
fn push_obj_uid(out: &mut Vec<char>, tag: &str, field: &str, u: Uid)
    ensures
        final(out)@ == old(out)@ + enc_obj(tag@, enc_f1(field@,
            enc_uid(u.bits))),
{
    out.push('{');
    push_jstr(out, tag);
    out.push(':');
    out.push('{');
    push_jstr(out, field);
    out.push(':');
    push_uidv(out, u);
    out.push('}');
    out.push('}');
    proof {
        assert(out@ =~= old(out)@ + enc_obj(tag@, enc_f1(field@,
            enc_uid(u.bits))));
    }
}

/// Appends the encoding of a tick destination.
#[verifier::rlimit(50)]
pub fn encode_hist(h: &HistTickDst, out: &mut Vec<char>)
    ensures
        final(out)@ == old(out)@ + enc_hist(h@),
{
    match h {
        HistTickDst::Flatfile { filename } => {
            out.push('{');
            push_jstr(out, "Flatfile");
            out.push(':');
            out.push('{');
            push_jstr(out, "filename");
            out.push(':');
            push_jstr(out, filename.as_str());
            out.push('}');
            out.push('}');
            proof {
                assert(out@ =~= old(out)@ + enc_hist(h@));
            }
        },
        HistTickDst::Postgres { table } => {
            out.push('{');
            push_jstr(out, "Postgres");
            out.push(':');
            out.push('{');
            push_jstr(out, "table");
            out.push(':');
            push_jstr(out, table.as_str());
            out.push('}');
            out.push('}');
            proof {
                assert(out@ =~= old(out)@ + enc_hist(h@));
            }
        },
        HistTickDst::RedisChannel { host, channel } => {
            out.push('{');
            push_jstr(out, "RedisChannel");
            out.push(':');
            out.push('{');
            push_jstr(out, "host");
            out.push(':');
            push_jstr(out, host.as_str());
            out.push(',');
            push_jstr(out, "channel");
            out.push(':');
            push_jstr(out, channel.as_str());
            out.push('}');
            out.push('}');
            proof {
                assert(out@ =~= old(out)@ + enc_hist(h@));
            }
        },
        HistTickDst::RedisSet { host, set_name } => {
            out.push('{');
            push_jstr(out, "RedisSet");
            out.push(':');
            out.push('{');
            push_jstr(out, "host");
            out.push(':');
            push_jstr(out, host.as_str());
            out.push(',');
            push_jstr(out, "set_name");
            out.push(':');
            push_jstr(out, set_name.as_str());
            out.push('}');
            out.push('}');
            proof {
                assert(out@ =~= old(out)@ + enc_hist(h@));
            }
        },
        HistTickDst::Console => {
            push_jstr(out, "Console");
            proof {
                assert(out@ =~= old(out)@ + enc_hist(h@));
            }
        },
    }
}

/// Appends the encoding of a command.
#[verifier::rlimit(100)]
pub fn encode_command(c: &Command, out: &mut Vec<char>)
    ensures
        final(out)@ == old(out)@ + enc_cmd(c@),
{
    match c {
        Command::Ping => {
            push_jstr(out, "Ping");
        },
        Command::Shutdown => {
            push_jstr(out, "Shutdown");
        },
        Command::Kill => {
            push_jstr(out, "Kill");
        },
        Command::Type => {
            push_jstr(out, "Type");
        },
        Command::SpawnMM => {
            push_jstr(out, "SpawnMM");
        },
        Command::Census => {
            push_jstr(out, "Census");
        },
        Command::SpawnBacktester => {
            push_jstr(out, "SpawnBacktester");
        },
        Command::SpawnFxcmDataDownloader => {
            push_jstr(out, "SpawnFxcmDataDownloader");
        },
        Command::KillAllInstances => {
            push_jstr(out, "KillAllInstances");
        },
        Command::ListBacktests => {
            push_jstr(out, "ListBacktests");
        },
        Command::ListSimbrokers => {
            push_jstr(out, "ListSimbrokers");
        },
        Command::ListRunningDownloads => {
            push_jstr(out, "ListRunningDownloads");
        },
        Command::Register { channel } => {
            push_obj_s(out, "Register", "channel", channel.as_str());
        },
        Command::Ready { instance_type, uuid } => {
            out.push('{');
            push_jstr(out, "Ready");
            out.push(':');
            out.push('{');
            push_jstr(out, "instance_type");
            out.push(':');
            push_jstr(out, instance_type.as_str());
            out.push(',');
            push_jstr(out, "uuid");
            out.push(':');
            push_uidv(out, *uuid);
            out.push('}');
            out.push('}');
            proof {
                assert(out@ =~= old(out)@ + enc_cmd(c@));
            }
        },
        Command::AddSMA { period } => {
            push_obj_u(out, "AddSMA", "period", *period);
        },
        Command::RemoveSMA { period } => {
            push_obj_u(out, "RemoveSMA", "period", *period);
        },
        Command::SpawnOptimizer { strategy } => {
            push_obj_s(out, "SpawnOptimizer", "strategy", strategy.as_str());
        },
        Command::SpawnTickParser { symbol } => {
            push_obj_s(out, "SpawnTickParser", "symbol", symbol.as_str());
        },
        Command::KillInstance { uuid } => {
            push_obj_uid(out, "KillInstance", "uuid", *uuid);
        },
        Command::StartBacktest { definition } => {
            push_obj_s(out, "StartBacktest", "definition", definition.as_str());
        },
        Command::PauseBacktest { uuid } => {
            push_obj_uid(out, "PauseBacktest", "uuid", *uuid);
        },
        Command::ResumeBacktest { uuid } => {
            push_obj_uid(out, "ResumeBacktest", "uuid", *uuid);
        },
        Command::StopBacktest { uuid } => {
            push_obj_uid(out, "StopBacktest", "uuid", *uuid);
        },
        Command::SpawnSimbroker { settings } => {
            out.push('{');
            push_jstr(out, "SpawnSimbroker");
            out.push(':');
            out.push('{');
            push_jstr(out, "settings");
            out.push(':');
            out.push('{');
            push_jstr(out, "starting_balance");
            out.push(':');
            push_u64v(out, settings.starting_balance);
            out.push('}');
            out.push('}');
            out.push('}');
            proof {
                assert(out@ =~= old(out)@ + enc_cmd(c@));
            }
        },
        Command::DownloadTicks { start_time, end_time, symbol, dst } => {
            out.push('{');
            push_jstr(out, "DownloadTicks");
            out.push(':');
            out.push('{');
            push_jstr(out, "start_time");
            out.push(':');
            push_jstr(out, start_time.as_str());
            out.push(',');
            push_jstr(out, "end_time");
            out.push(':');
            push_jstr(out, end_time.as_str());
            out.push(',');
            push_jstr(out, "symbol");
            out.push(':');
            push_jstr(out, symbol.as_str());
            out.push(',');
            push_jstr(out, "dst");
            out.push(':');
            encode_hist(dst, out);
            out.push('}');
            out.push('}');
            proof {
                assert(out@ =~= old(out)@ + enc_cmd(c@));
            }
        },
        Command::DownloadComplete { start_time, end_time, symbol, dst } => {
            out.push('{');
            push_jstr(out, "DownloadComplete");
            out.push(':');
            out.push('{');
            push_jstr(out, "start_time");
            out.push(':');
            push_jstr(out, start_time.as_str());
            out.push(',');
            push_jstr(out, "end_time");
            out.push(':');
            push_jstr(out, end_time.as_str());
            out.push(',');
            push_jstr(out, "symbol");
            out.push(':');
            push_jstr(out, symbol.as_str());
            out.push(',');
            push_jstr(out, "dst");
            out.push(':');
            encode_hist(dst, out);
            out.push('}');
            out.push('}');
            proof {
                assert(out@ =~= old(out)@ + enc_cmd(c@));
            }
        },
    }
}

/// Appends the encoding of a response.
#[verifier::rlimit(100)]
pub fn encode_response(r: &Response, out: &mut Vec<char>)
    ensures
        final(out)@ == old(out)@ + enc_resp(r@),
{
    match r {
        Response::Okay => {
            push_jstr(out, "Ok");
        },
        Response::Error { status } => {
            out.push('{');
            push_jstr(out, "Error");
            out.push(':');
            out.push('{');
            push_jstr(out, "status");
            out.push(':');
            push_jstr(out, status.as_str());
            out.push('}');
            out.push('}');
            proof {
                assert(out@ =~= old(out)@ + enc_resp(r@));
            }
        },
        Response::Info { info } => {
            out.push('{');
            push_jstr(out, "Info");
            out.push(':');
            out.push('{');
            push_jstr(out, "info");
            out.push(':');
            push_jstr(out, info.as_str());
            out.push('}');
            out.push('}');
            proof {
                assert(out@ =~= old(out)@ + enc_resp(r@));
            }
        },
        Response::Pong { args } => {
            out.push('{');
            push_jstr(out, "Pong");
            out.push(':');
            out.push('{');
            push_jstr(out, "args");
            out.push(':');
            push_arr(out, args);
            out.push('}');
            out.push('}');
            proof {
                assert(out@ =~= old(out)@ + enc_resp(r@));
            }
        },
    }
}

/// Appends a string array.
pub fn push_arr(out: &mut Vec<char>, vs: &Vec<String>)
    ensures
        final(out)@ == old(out)@ + enc_arr(vs.deep_view()),
{
    out.push('[');
    let n = vs.len();
    let mut i: usize = 0;
    while i < n
        invariant
            n == vs@.len(),
            i <= n,
            out@ == old(out)@ + seq!['['] + enc_arr_items(vs.deep_view().subrange(0, i as int)),
        decreases n - i,
    {
        if i > 0 {
            out.push(',');
        }
        push_jstr(out, vs[i].as_str());
        proof {
            let dv = vs.deep_view();
            assert(dv[i as int] == vs@[i as int]@);
            assert(dv.subrange(0, (i + 1) as int).drop_last() =~= dv.subrange(0, i as int));
            assert(dv.subrange(0, (i + 1) as int).last() == dv[i as int]);
            if i == 0 {
                assert(enc_arr_items(dv.subrange(0, 1)) == enc_jstr(dv[0]));
                assert(out@ =~= old(out)@ + seq!['['] + enc_arr_items(
                    dv.subrange(0, (i + 1) as int),
                ));
            } else {
                assert(out@ =~= old(out)@ + seq!['['] + enc_arr_items(
                    dv.subrange(0, (i + 1) as int),
                ));
            }
        }
        i += 1;
    }
    out.push(']');
    proof {
        assert(vs.deep_view().subrange(0, n as int) =~= vs.deep_view());
        assert(out@ =~= old(out)@ + enc_arr(vs.deep_view()));
    }
}

/// Appends the encoding of a wrapped command.
pub fn encode_wrapped_command(w: &WrappedCommand, out: &mut Vec<char>)
    ensures
        final(out)@ == old(out)@ + enc_wrapped_cmd(w@),
{
    out.push('{');
    push_jstr(out, "uuid");
    out.push(':');
    push_uidv(out, w.uuid);
    out.push(',');
    push_jstr(out, "cmd");
    out.push(':');
    encode_command(&w.cmd, out);
    out.push('}');
    proof {
        assert(out@ =~= old(out)@ + enc_wrapped_cmd(w@));
    }
}

/// Appends the encoding of a wrapped response.
pub fn encode_wrapped_response(w: &WrappedResponse, out: &mut Vec<char>)
    ensures
        final(out)@ == old(out)@ + enc_wrapped_resp(w@),
{
    out.push('{');
    push_jstr(out, "uuid");
    out.push(':');
    push_uidv(out, w.uuid);
    out.push(',');
    push_jstr(out, "res");
    out.push(':');
    encode_response(&w.res, out);
    out.push('}');
    proof {
        assert(out@ =~= old(out)@ + enc_wrapped_resp(w@));
    }
}


// ---------------------------------------------------------------------------
// decoders
// ---------------------------------------------------------------------------

/// `{"f":"v"}`.
pub fn d_f1_s(v: &Vec<char>, i: usize, f: &str) -> (r: Option<(String, usize)>)
    requires
        i <= v@.len(),
    ensures
        match r {
            Some((x, j)) => p_f1_s(v@, i as int, f@) == Some((x@, j as int)) && i < j <= v@.len(),
            None => p_f1_s(v@, i as int, f@) is None,
        },
{
    let i1 = match e_tok(v, i, '{') { Some(x) => x, None => { return None; } };
    let i2 = match e_key(v, i1, f) { Some(x) => x, None => { return None; } };
    let (x, i3) = match e_sval(v, i2) { Some(p) => p, None => { return None; } };
    let i4 = match e_tok(v, i3, '}') { Some(x) => x, None => { return None; } };
    Some((chars_to_string(&x), i4))
}

/// `{"f":n}`.
pub fn d_f1_u(v: &Vec<char>, i: usize, f: &str) -> (r: Option<(u64, usize)>)
    requires
        i <= v@.len(),
    ensures
        match r {
            Some((x, j)) => p_f1_u(v@, i as int, f@) == Some((x, j as int)) && i < j <= v@.len(),
            None => p_f1_u(v@, i as int, f@) is None,
        },
{
    let i1 = match e_tok(v, i, '{') { Some(x) => x, None => { return None; } };
    let i2 = match e_key(v, i1, f) { Some(x) => x, None => { return None; } };
    let (x, i3) = match e_nval(v, i2) { Some(p) => p, None => { return None; } };
    let i4 = match e_tok(v, i3, '}') { Some(x) => x, None => { return None; } };
    Some((x, i4))
}

/// `{"f":"<uuid>"}`.
pub fn d_f1_uid(v: &Vec<char>, i: usize, f: &str) -> (r: Option<(u128, usize)>)
    requires
        i <= v@.len(),
    ensures
        match r {
            Some((x, j)) => p_f1_uid(v@, i as int, f@) == Some((x, j as int)) && i < j
                <= v@.len(),
            None => p_f1_uid(v@, i as int, f@) is None,
        },
{
    let i1 = match e_tok(v, i, '{') { Some(x) => x, None => { return None; } };
    let i2 = match e_key(v, i1, f) { Some(x) => x, None => { return None; } };
    let (x, i3) = match e_uidval(v, i2) { Some(p) => p, None => { return None; } };
    let i4 = match e_tok(v, i3, '}') { Some(x) => x, None => { return None; } };
    Some((x, i4))
}

/// `{"f1":"v1","f2":"<uuid>"}`.
pub fn d_f2_s_uid(v: &Vec<char>, i: usize, f1: &str, f2: &str) -> (r: Option<((String, u128), usize)>)
    requires
        i <= v@.len(),
    ensures
        match r {
            Some(((x, u), j)) => p_f2_s_uid(v@, i as int, f1@, f2@) == Some(((x@, u), j as int))
                && i < j <= v@.len(),
            None => p_f2_s_uid(v@, i as int, f1@, f2@) is None,
        },
{
    let i1 = match e_tok(v, i, '{') { Some(x) => x, None => { return None; } };
    let i2 = match e_key(v, i1, f1) { Some(x) => x, None => { return None; } };
    let (x, i3) = match e_sval(v, i2) { Some(p) => p, None => { return None; } };
    let i4 = match e_tok(v, i3, ',') { Some(x) => x, None => { return None; } };
    let i5 = match e_key(v, i4, f2) { Some(x) => x, None => { return None; } };
    let (u, i6) = match e_uidval(v, i5) { Some(p) => p, None => { return None; } };
    let i7 = match e_tok(v, i6, '}') { Some(x) => x, None => { return None; } };
    Some(((chars_to_string(&x), u), i7))
}

/// `{"f1":"v1","f2":"v2"}`.
pub fn d_f2_s_s(v: &Vec<char>, i: usize, f1: &str, f2: &str) -> (r: Option<((String, String), usize)>)
    requires
        i <= v@.len(),
    ensures
        match r {
            Some(((x, y), j)) => p_f2_s_s(v@, i as int, f1@, f2@) == Some(((x@, y@), j as int))
                && i < j <= v@.len(),
            None => p_f2_s_s(v@, i as int, f1@, f2@) is None,
        },
{
    let i1 = match e_tok(v, i, '{') { Some(x) => x, None => { return None; } };
    let i2 = match e_key(v, i1, f1) { Some(x) => x, None => { return None; } };
    let (x, i3) = match e_sval(v, i2) { Some(p) => p, None => { return None; } };
    let i4 = match e_tok(v, i3, ',') { Some(x) => x, None => { return None; } };
    let i5 = match e_key(v, i4, f2) { Some(x) => x, None => { return None; } };
    let (y, i6) = match e_sval(v, i5) { Some(p) => p, None => { return None; } };
    let i7 = match e_tok(v, i6, '}') { Some(x) => x, None => { return None; } };
    Some(((chars_to_string(&x), chars_to_string(&y)), i7))
}

/// The items of a string array after the opening bracket.
fn d_arr_items(v: &Vec<char>, i: usize) -> (r: Option<(Vec<String>, usize)>)
    requires
        i <= v@.len(),
    ensures
        match r {
            Some((vs, j)) => p_arr_items(v@, i as int) == Some((vs.deep_view(), j as int))
                && i < j <= v@.len(),
            None => p_arr_items(v@, i as int) is None,
        },
    decreases v@.len() - i,
{
    let (x, j) = match e_sval(v, i) { Some(p) => p, None => { return None; } };
    let first = chars_to_string(&x);
    match e_tok(v, j, ']') {
        Some(j2) => {
            let mut out: Vec<String> = Vec::new();
            out.push(first);
            proof {
                assert(out.deep_view() =~= seq![x@]);
            }
            Some((out, j2))
        },
        None => {
            let j3 = match e_tok(v, j, ',') { Some(p) => p, None => { return None; } };
            match d_arr_items(v, j3) {
                Some((rest, e)) => {
                    let mut out: Vec<String> = Vec::new();
                    out.push(first);
                    let mut rest2 = rest;
                    out.append(&mut rest2);
                    proof {
                        assert(out.deep_view() =~= seq![x@] + rest.deep_view());
                    }
                    Some((out, e))
                },
                None => None,
            }
        },
    }
}

/// `["a","b",...]`, possibly empty.
fn d_arr(v: &Vec<char>, i: usize) -> (r: Option<(Vec<String>, usize)>)
    requires
        i <= v@.len(),
    ensures
        match r {
            Some((vs, j)) => p_arr(v@, i as int) == Some((vs.deep_view(), j as int)) && i < j
                <= v@.len(),
            None => p_arr(v@, i as int) is None,
        },
{
    let i1 = match e_tok(v, i, '[') { Some(x) => x, None => { return None; } };
    match e_tok(v, i1, ']') {
        Some(i2) => {
            let out: Vec<String> = Vec::new();
            proof {
                assert(out.deep_view() =~= Seq::<Seq<char>>::empty());
            }
            Some((out, i2))
        },
        None => d_arr_items(v, i1),
    }
}

/// A tick destination value.
fn d_hist(v: &Vec<char>, i: usize) -> (r: Option<(HistTickDst, usize)>)
    requires
        i <= v@.len(),
    ensures
        match r {
            Some((h, j)) => p_hist(v@, i as int) == Some((h@, j as int)) && i < j <= v@.len(),
            None => p_hist(v@, i as int) is None,
        },
{
    let k = ws_end(v, i);
    if k < v.len() && v[k] == '"' {
        let (t, j) = match e_sval(v, i) { Some(p) => p, None => { return None; } };
        if chars_eq_str(&t, "Console") {
            Some((HistTickDst::Console, j))
        } else {
            None
        }
    } else {
        let i1 = match e_tok(v, i, '{') { Some(x) => x, None => { return None; } };
        let (t, j) = match e_sval(v, i1) { Some(p) => p, None => { return None; } };
        let i2 = match e_tok(v, j, ':') { Some(x) => x, None => { return None; } };
        let inner: Option<(HistTickDst, usize)> = if chars_eq_str(&t, "Flatfile") {
            match d_f1_s(v, i2, "filename") {
                Some((x, i3)) => Some((HistTickDst::Flatfile { filename: x }, i3)),
                None => None,
            }
        } else if chars_eq_str(&t, "Postgres") {
            match d_f1_s(v, i2, "table") {
                Some((x, i3)) => Some((HistTickDst::Postgres { table: x }, i3)),
                None => None,
            }
        } else if chars_eq_str(&t, "RedisChannel") {
            match d_f2_s_s(v, i2, "host", "channel") {
                Some(((h, c), i3)) => Some((HistTickDst::RedisChannel { host: h, channel: c }, i3)),
                None => None,
            }
        } else if chars_eq_str(&t, "RedisSet") {
            match d_f2_s_s(v, i2, "host", "set_name") {
                Some(((h, c), i3)) => Some((HistTickDst::RedisSet { host: h, set_name: c }, i3)),
                None => None,
            }
        } else {
            None
        };
        match inner {
            Some((h, i3)) => match e_tok(v, i3, '}') {
                Some(i4) => Some((h, i4)),
                None => None,
            },
            None => None,
        }
    }
}

/// The field object shared by the download commands.
fn d_dl(v: &Vec<char>, i: usize) -> (r: Option<((String, String, String, HistTickDst), usize)>)
    requires
        i <= v@.len(),
    ensures
        match r {
            Some(((st, et, sym, d), j)) => p_dl_fields(v@, i as int) == Some(
                ((st@, et@, sym@, d@), j as int),
            ) && i < j <= v@.len(),
            None => p_dl_fields(v@, i as int) is None,
        },
{
    let i1 = match e_tok(v, i, '{') { Some(x) => x, None => { return None; } };
    let i2 = match e_key(v, i1, "start_time") { Some(x) => x, None => { return None; } };
    let (st, i3) = match e_sval(v, i2) { Some(p) => p, None => { return None; } };
    let i4 = match e_tok(v, i3, ',') { Some(x) => x, None => { return None; } };
    let i5 = match e_key(v, i4, "end_time") { Some(x) => x, None => { return None; } };
    let (et, i6) = match e_sval(v, i5) { Some(p) => p, None => { return None; } };
    let i7 = match e_tok(v, i6, ',') { Some(x) => x, None => { return None; } };
    let i8 = match e_key(v, i7, "symbol") { Some(x) => x, None => { return None; } };
    let (sym, i9) = match e_sval(v, i8) { Some(p) => p, None => { return None; } };
    let i10 = match e_tok(v, i9, ',') { Some(x) => x, None => { return None; } };
    let i11 = match e_key(v, i10, "dst") { Some(x) => x, None => { return None; } };
    let (d, i12) = match d_hist(v, i11) { Some(p) => p, None => { return None; } };
    let i13 = match e_tok(v, i12, '}') { Some(x) => x, None => { return None; } };
    Some(((chars_to_string(&st), chars_to_string(&et), chars_to_string(&sym), d), i13))
}

/// A command value.
#[verifier::rlimit(100)]
pub fn d_cmd(v: &Vec<char>, i: usize) -> (r: Option<(Command, usize)>)
    requires
        i <= v@.len(),
    ensures
        match r {
            Some((c, j)) => p_cmd(v@, i as int) == Some((c@, j as int)) && i < j <= v@.len(),
            None => p_cmd(v@, i as int) is None,
        },
{
    let k = ws_end(v, i);
    if k < v.len() && v[k] == '"' {
        let (t, j) = match e_sval(v, i) { Some(p) => p, None => { return None; } };
        if chars_eq_str(&t, "Ping") { Some((Command::Ping, j)) }
        else if chars_eq_str(&t, "Shutdown") { Some((Command::Shutdown, j)) }
        else if chars_eq_str(&t, "Kill") { Some((Command::Kill, j)) }
        else if chars_eq_str(&t, "Type") { Some((Command::Type, j)) }
        else if chars_eq_str(&t, "SpawnMM") { Some((Command::SpawnMM, j)) }
        else if chars_eq_str(&t, "Census") { Some((Command::Census, j)) }
        else if chars_eq_str(&t, "SpawnBacktester") { Some((Command::SpawnBacktester, j)) }
        else if chars_eq_str(&t, "SpawnFxcmDataDownloader") {
            Some((Command::SpawnFxcmDataDownloader, j))
        }
        else if chars_eq_str(&t, "KillAllInstances") { Some((Command::KillAllInstances, j)) }
        else if chars_eq_str(&t, "ListBacktests") { Some((Command::ListBacktests, j)) }
        else if chars_eq_str(&t, "ListSimbrokers") { Some((Command::ListSimbrokers, j)) }
        else if chars_eq_str(&t, "ListRunningDownloads") { Some((Command::ListRunningDownloads, j)) }
        else { None }
    } else {
        let i1 = match e_tok(v, i, '{') { Some(x) => x, None => { return None; } };
        let (t, j) = match e_sval(v, i1) { Some(p) => p, None => { return None; } };
        let i2 = match e_tok(v, j, ':') { Some(x) => x, None => { return None; } };
        let inner: Option<(Command, usize)> = if chars_eq_str(&t, "Register") {
            match d_f1_s(v, i2, "channel") {
                Some((x, i3)) => Some((Command::Register { channel: x }, i3)),
                None => None,
            }
        } else if chars_eq_str(&t, "Ready") {
            match d_f2_s_uid(v, i2, "instance_type", "uuid") {
                Some(((x, u), i3)) => Some(
                    (Command::Ready { instance_type: x, uuid: Uid { bits: u } }, i3),
                ),
                None => None,
            }
        } else if chars_eq_str(&t, "AddSMA") {
            match d_f1_u(v, i2, "period") {
                Some((x, i3)) => Some((Command::AddSMA { period: x }, i3)),
                None => None,
            }
        } else if chars_eq_str(&t, "RemoveSMA") {
            match d_f1_u(v, i2, "period") {
                Some((x, i3)) => Some((Command::RemoveSMA { period: x }, i3)),
                None => None,
            }
        } else if chars_eq_str(&t, "SpawnOptimizer") {
            match d_f1_s(v, i2, "strategy") {
                Some((x, i3)) => Some((Command::SpawnOptimizer { strategy: x }, i3)),
                None => None,
            }
        } else if chars_eq_str(&t, "SpawnTickParser") {
            match d_f1_s(v, i2, "symbol") {
                Some((x, i3)) => Some((Command::SpawnTickParser { symbol: x }, i3)),
                None => None,
            }
        } else if chars_eq_str(&t, "KillInstance") {
            match d_f1_uid(v, i2, "uuid") {
                Some((u, i3)) => Some((Command::KillInstance { uuid: Uid { bits: u } }, i3)),
                None => None,
            }
        } else if chars_eq_str(&t, "StartBacktest") {
            match d_f1_s(v, i2, "definition") {
                Some((x, i3)) => Some((Command::StartBacktest { definition: x }, i3)),
                None => None,
            }
        } else if chars_eq_str(&t, "PauseBacktest") {
            match d_f1_uid(v, i2, "uuid") {
                Some((u, i3)) => Some((Command::PauseBacktest { uuid: Uid { bits: u } }, i3)),
                None => None,
            }
        } else if chars_eq_str(&t, "ResumeBacktest") {
            match d_f1_uid(v, i2, "uuid") {
                Some((u, i3)) => Some((Command::ResumeBacktest { uuid: Uid { bits: u } }, i3)),
                None => None,
            }
        } else if chars_eq_str(&t, "StopBacktest") {
            match d_f1_uid(v, i2, "uuid") {
                Some((u, i3)) => Some((Command::StopBacktest { uuid: Uid { bits: u } }, i3)),
                None => None,
            }
        } else if chars_eq_str(&t, "SpawnSimbroker") {
            match e_tok(v, i2, '{') {
                Some(i3) => match e_key(v, i3, "settings") {
                    Some(i4) => match d_f1_u(v, i4, "starting_balance") {
                        Some((x, i5)) => match e_tok(v, i5, '}') {
                            Some(i6) => Some(
                                (Command::SpawnSimbroker {
                                    settings: SimBrokerSettings { starting_balance: x },
                                }, i6),
                            ),
                            None => None,
                        },
                        None => None,
                    },
                    None => None,
                },
                None => None,
            }
        } else if chars_eq_str(&t, "DownloadTicks") {
            match d_dl(v, i2) {
                Some(((st, et, sym, d), i3)) => Some(
                    (Command::DownloadTicks {
                        start_time: st,
                        end_time: et,
                        symbol: sym,
                        dst: d,
                    }, i3),
                ),
                None => None,
            }
        } else if chars_eq_str(&t, "DownloadComplete") {
            match d_dl(v, i2) {
                Some(((st, et, sym, d), i3)) => Some(
                    (Command::DownloadComplete {
                        start_time: st,
                        end_time: et,
                        symbol: sym,
                        dst: d,
                    }, i3),
                ),
                None => None,
            }
        } else {
            None
        };
        match inner {
            Some((c, i3)) => match e_tok(v, i3, '}') {
                Some(i4) => Some((c, i4)),
                None => None,
            },
            None => None,
        }
    }
}

/// A response value.
#[verifier::rlimit(50)]
pub fn d_resp(v: &Vec<char>, i: usize) -> (r: Option<(Response, usize)>)
    requires
        i <= v@.len(),
    ensures
        match r {
            Some((c, j)) => p_resp(v@, i as int) == Some((c@, j as int)) && i < j <= v@.len(),
            None => p_resp(v@, i as int) is None,
        },
{
    let k = ws_end(v, i);
    if k < v.len() && v[k] == '"' {
        let (t, j) = match e_sval(v, i) { Some(p) => p, None => { return None; } };
        if chars_eq_str(&t, "Ok") {
            Some((Response::Okay, j))
        } else {
            None
        }
    } else {
        let i1 = match e_tok(v, i, '{') { Some(x) => x, None => { return None; } };
        let (t, j) = match e_sval(v, i1) { Some(p) => p, None => { return None; } };
        let i2 = match e_tok(v, j, ':') { Some(x) => x, None => { return None; } };
        let inner: Option<(Response, usize)> = if chars_eq_str(&t, "Error") {
            match d_f1_s(v, i2, "status") {
                Some((x, i3)) => Some((Response::Error { status: x }, i3)),
                None => None,
            }
        } else if chars_eq_str(&t, "Info") {
            match d_f1_s(v, i2, "info") {
                Some((x, i3)) => Some((Response::Info { info: x }, i3)),
                None => None,
            }
        } else if chars_eq_str(&t, "Pong") {
            match e_tok(v, i2, '{') {
                Some(i3) => match e_key(v, i3, "args") {
                    Some(i4) => match d_arr(v, i4) {
                        Some((vs, i5)) => match e_tok(v, i5, '}') {
                            Some(i6) => Some((Response::Pong { args: vs }, i6)),
                            None => None,
                        },
                        None => None,
                    },
                    None => None,
                },
                None => None,
            }
        } else {
            None
        };
        match inner {
            Some((r2, i3)) => match e_tok(v, i3, '}') {
                Some(i4) => Some((r2, i4)),
                None => None,
            },
            None => None,
        }
    }
}

/// A wrapped command.
pub fn d_wc(v: &Vec<char>, i: usize) -> (r: Option<(WrappedCommand, usize)>)
    requires
        i <= v@.len(),
    ensures
        match r {
            Some((w, j)) => p_wc(v@, i as int) == Some((w@, j as int)) && i < j <= v@.len(),
            None => p_wc(v@, i as int) is None,
        },
{
    let i1 = match e_tok(v, i, '{') { Some(x) => x, None => { return None; } };
    let i2 = match e_key(v, i1, "uuid") { Some(x) => x, None => { return None; } };
    let (u, i3) = match e_uidval(v, i2) { Some(p) => p, None => { return None; } };
    let i4 = match e_tok(v, i3, ',') { Some(x) => x, None => { return None; } };
    let i5 = match e_key(v, i4, "cmd") { Some(x) => x, None => { return None; } };
    let (c, i6) = match d_cmd(v, i5) { Some(p) => p, None => { return None; } };
    let i7 = match e_tok(v, i6, '}') { Some(x) => x, None => { return None; } };
    Some((WrappedCommand { uuid: Uid { bits: u }, cmd: c }, i7))
}

/// A wrapped response.
pub fn d_wr(v: &Vec<char>, i: usize) -> (r: Option<(WrappedResponse, usize)>)
    requires
        i <= v@.len(),
    ensures
        match r {
            Some((w, j)) => p_wr(v@, i as int) == Some((w@, j as int)) && i < j <= v@.len(),
            None => p_wr(v@, i as int) is None,
        },
{
    let i1 = match e_tok(v, i, '{') { Some(x) => x, None => { return None; } };
    let i2 = match e_key(v, i1, "uuid") { Some(x) => x, None => { return None; } };
    let (u, i3) = match e_uidval(v, i2) { Some(p) => p, None => { return None; } };
    let i4 = match e_tok(v, i3, ',') { Some(x) => x, None => { return None; } };
    let i5 = match e_key(v, i4, "res") { Some(x) => x, None => { return None; } };
    let (c, i6) = match d_resp(v, i5) { Some(p) => p, None => { return None; } };
    let i7 = match e_tok(v, i6, '}') { Some(x) => x, None => { return None; } };
    Some((WrappedResponse { uuid: Uid { bits: u }, res: c }, i7))
}

// ---------------------------------------------------------------------------
// public text conversions
// ---------------------------------------------------------------------------

fn text_chars(raw: &str) -> (r: Vec<char>)
    ensures
        r@ == raw@,
{
    let mut v: Vec<char> = Vec::new();
    push_str_chars(&mut v, raw);
    v
}

fn ends_clean(v: &Vec<char>, j: usize) -> (r: bool)
    requires
        j <= v@.len(),
    ensures
        r == crate::messages::only_ws_after(v@, j as int),
{
    let e = ws_end(v, j);
    e == v.len()
}

impl Command {
    /// Decodes a command from its text form; exactly the texts the wire
    /// grammar accepts (one command, with nothing but whitespace after it)
    /// yield a command.
    pub fn from_str(raw: &str) -> (r: Result<Command, ()>)
        ensures
            match p_cmd_text(raw@) {
                Some(cv) => r matches Ok(c) && c@ == cv,
                None => r is Err,
            },
    {
        let v = text_chars(raw);
        match d_cmd(&v, 0) {
            Some((c, j)) => {
                if ends_clean(&v, j) {
                    Ok(c)
                } else {
                    Err(())
                }
            },
            None => Err(()),
        }
    }

    /// Encodes the command in its canonical text form; never fails.
    pub fn to_string(&self) -> (r: Result<String, ()>)
        ensures
            r matches Ok(s) && s@ == enc_cmd(self@),
    {
        let mut out: Vec<char> = Vec::new();
        encode_command(self, &mut out);
        Ok(chars_to_string(&out))
    }
}

impl Response {
    /// Decodes a response from its text form.
    pub fn from_str(raw: &str) -> (r: Result<Response, ()>)
        ensures
            match p_resp_text(raw@) {
                Some(cv) => r matches Ok(c) && c@ == cv,
                None => r is Err,
            },
    {
        let v = text_chars(raw);
        match d_resp(&v, 0) {
            Some((c, j)) => {
                if ends_clean(&v, j) {
                    Ok(c)
                } else {
                    Err(())
                }
            },
            None => Err(()),
        }
    }

    /// Encodes the response in its canonical text form; never fails.
    pub fn to_string(&self) -> (r: Result<String, ()>)
        ensures
            r matches Ok(s) && s@ == enc_resp(self@),
    {
        let mut out: Vec<char> = Vec::new();
        encode_response(self, &mut out);
        Ok(chars_to_string(&out))
    }
}

impl WrappedCommand {
    /// Decodes a wrapped command from its text form.
    pub fn from_str(raw: &str) -> (r: Result<WrappedCommand, ()>)
        ensures
            match p_wc_text(raw@) {
                Some(cv) => r matches Ok(c) && c@ == cv,
                None => r is Err,
            },
    {
        let v = text_chars(raw);
        match d_wc(&v, 0) {
            Some((c, j)) => {
                if ends_clean(&v, j) {
                    Ok(c)
                } else {
                    Err(())
                }
            },
            None => Err(()),
        }
    }

    /// Encodes the wrapped command in its canonical text form; never fails.
    pub fn to_string(&self) -> (r: Result<String, ()>)
        ensures
            r matches Ok(s) && s@ == enc_wrapped_cmd(self@),
    {
        let mut out: Vec<char> = Vec::new();
        encode_wrapped_command(self, &mut out);
        Ok(chars_to_string(&out))
    }
}

impl WrappedResponse {
    /// Decodes a wrapped response from its text form.
    pub fn from_str(raw: &str) -> (r: Result<WrappedResponse, ()>)
        ensures
            match p_wr_text(raw@) {
                Some(cv) => r matches Ok(c) && c@ == cv,
                None => r is Err,
            },
    {
        let v = text_chars(raw);
        match d_wr(&v, 0) {
            Some((c, j)) => {
                if ends_clean(&v, j) {
                    Ok(c)
                } else {
                    Err(())
                }
            },
            None => Err(()),
        }
    }

    /// Encodes the wrapped response in its canonical text form; never fails.
    pub fn to_string(&self) -> (r: Result<String, ()>)
        ensures
            r matches Ok(s) && s@ == enc_wrapped_resp(self@),
    {
        let mut out: Vec<char> = Vec::new();
        encode_wrapped_response(self, &mut out);
        Ok(chars_to_string(&out))
    }
}

/// Converts a text into a wrapped command, as the receive path does.
/// The text must be well-formed (a malformed text is a protocol violation
/// the caller screens out with `WrappedCommand::from_str`).
pub fn parse_wrapped_command(raw: String) -> (r: WrappedCommand)
    requires
        p_wc_text(raw@) is Some,
    ensures
        Some(r@) == p_wc_text(raw@),
{
    match WrappedCommand::from_str(raw.as_str()) {
        Ok(w) => w,
        Err(_) => {
            proof {
                assert(false);
            }
            WrappedCommand { uuid: Uid { bits: 0 }, cmd: Command::Ping }
        },
    }
}

/// Converts a text into a wrapped response, as the receive path does.
pub fn parse_wrapped_response(raw_res: String) -> (r: WrappedResponse)
    requires
        p_wr_text(raw_res@) is Some,
    ensures
        Some(r@) == p_wr_text(raw_res@),
{
    match WrappedResponse::from_str(raw_res.as_str()) {
        Ok(w) => w,
        Err(_) => {
            proof {
                assert(false);
            }
            WrappedResponse { uuid: Uid { bits: 0 }, res: Response::Okay }
        },
    }
}

} // verus!
