//! The codec round-trip laws: decoding a canonical encoding yields the
//! encoded value back, for every command and every response, and for the
//! wrapped envelopes that carry them.

use vstd::prelude::*;
use crate::codec::{enc_entry, enc_obj, lemma_p_key_of_enc, lemma_p_nval_of_enc,
    lemma_p_sval_of_enc, lemma_p_uidval_of_enc, lemma_skip_ws_id, lemma_split2,
    lemma_tok_of_enc, p_key, p_nval, p_sval, p_uidval, tok};
use crate::json::{enc_jstr, enc_u64, enc_uid, is_digit, is_ws, lemma_char_at,
    lemma_parse_jstr_of_enc, matches_at, parse_jstr, skip_ws};
use crate::messages::{enc_arr, enc_arr_items, enc_cmd, enc_f1, enc_f2, enc_f4, enc_hist,
    enc_resp, enc_wrapped_cmd, enc_wrapped_resp, only_ws_after, p_arr, p_arr_items, p_cmd,
    p_cmd_text, p_dl_fields, p_f1_s, p_f1_u, p_f1_uid, p_f2_s_s, p_f2_s_uid, p_hist, p_resp,
    p_resp_text, p_wc, p_wc_text, p_wr, p_wr_text, CmdV, HistV, RespV, WcV, WrV};

verus! {

/// The lengths and first characters of all the tags, which is what tells
/// them apart in the parsers' dispatch chains.
proof fn lemma_tag_shapes()
    ensures
        "Ping"@.len() == 4 && "Ping"@[0] == 'P',
        "Shutdown"@.len() == 8 && "Shutdown"@[0] == 'S',
        "Kill"@.len() == 4 && "Kill"@[0] == 'K',
        "Type"@.len() == 4 && "Type"@[0] == 'T',
        "SpawnMM"@.len() == 7 && "SpawnMM"@[0] == 'S',
        "Census"@.len() == 6 && "Census"@[0] == 'C',
        "SpawnBacktester"@.len() == 15 && "SpawnBacktester"@[0] == 'S',
        "SpawnFxcmDataDownloader"@.len() == 23 && "SpawnFxcmDataDownloader"@[0] == 'S',
        "KillAllInstances"@.len() == 16 && "KillAllInstances"@[0] == 'K',
        "ListBacktests"@.len() == 13 && "ListBacktests"@[0] == 'L',
        "ListSimbrokers"@.len() == 14 && "ListSimbrokers"@[0] == 'L',
        "ListRunningDownloads"@.len() == 20 && "ListRunningDownloads"@[0] == 'L',
        "Register"@.len() == 8 && "Register"@[0] == 'R',
        "Ready"@.len() == 5 && "Ready"@[0] == 'R',
        "AddSMA"@.len() == 6 && "AddSMA"@[0] == 'A',
        "RemoveSMA"@.len() == 9 && "RemoveSMA"@[0] == 'R',
        "SpawnOptimizer"@.len() == 14 && "SpawnOptimizer"@[0] == 'S',
        "SpawnTickParser"@.len() == 15 && "SpawnTickParser"@[0] == 'S',
        "KillInstance"@.len() == 12 && "KillInstance"@[0] == 'K',
        "StartBacktest"@.len() == 13 && "StartBacktest"@[0] == 'S',
        "PauseBacktest"@.len() == 13 && "PauseBacktest"@[0] == 'P',
        "ResumeBacktest"@.len() == 14 && "ResumeBacktest"@[0] == 'R',
        "StopBacktest"@.len() == 12 && "StopBacktest"@[0] == 'S',
        "SpawnSimbroker"@.len() == 14 && "SpawnSimbroker"@[0] == 'S',
        "DownloadTicks"@.len() == 13 && "DownloadTicks"@[0] == 'D',
        "DownloadComplete"@.len() == 16 && "DownloadComplete"@[0] == 'D',
        "SpawnTickParser"@[5] == 'T' && "SpawnBacktester"@[5] == 'B',
        "SpawnOptimizer"@[5] == 'O' && "SpawnSimbroker"@[5] == 'S',
        "StartBacktest"@[2] == 'a' && "StopBacktest"@[2] == 'o',
        "KillInstance"@[4] == 'I',
        "Ok"@.len() == 2 && "Ok"@[0] == 'O',
        "Error"@.len() == 5 && "Error"@[0] == 'E',
        "Pong"@.len() == 4 && "Pong"@[0] == 'P',
        "Info"@.len() == 4 && "Info"@[0] == 'I',
        "Console"@.len() == 7 && "Console"@[0] == 'C',
        "Flatfile"@.len() == 8 && "Flatfile"@[0] == 'F',
        "Postgres"@.len() == 8 && "Postgres"@[0] == 'P',
        "RedisChannel"@.len() == 12 && "RedisChannel"@[0] == 'R',
        "RedisSet"@.len() == 8 && "RedisSet"@[0] == 'R',
{
    reveal_strlit("Ping");
    reveal_strlit("Shutdown");
    reveal_strlit("Kill");
    reveal_strlit("Type");
    reveal_strlit("SpawnMM");
    reveal_strlit("Census");
    reveal_strlit("SpawnBacktester");
    reveal_strlit("SpawnFxcmDataDownloader");
    reveal_strlit("KillAllInstances");
    reveal_strlit("ListBacktests");
    reveal_strlit("ListSimbrokers");
    reveal_strlit("ListRunningDownloads");
    reveal_strlit("Register");
    reveal_strlit("Ready");
    reveal_strlit("AddSMA");
    reveal_strlit("RemoveSMA");
    reveal_strlit("SpawnOptimizer");
    reveal_strlit("SpawnTickParser");
    reveal_strlit("KillInstance");
    reveal_strlit("StartBacktest");
    reveal_strlit("PauseBacktest");
    reveal_strlit("ResumeBacktest");
    reveal_strlit("StopBacktest");
    reveal_strlit("SpawnSimbroker");
    reveal_strlit("DownloadTicks");
    reveal_strlit("DownloadComplete");
    reveal_strlit("Ok");
    reveal_strlit("Error");
    reveal_strlit("Pong");
    reveal_strlit("Info");
    reveal_strlit("Console");
    reveal_strlit("Flatfile");
    reveal_strlit("Postgres");
    reveal_strlit("RedisChannel");
    reveal_strlit("RedisSet");
}

/// The object shell `{"tag":<body>}` parses token by token.
proof fn lemma_obj_shell(s: Seq<char>, i: int, tag: Seq<char>, body: Seq<char>)
    requires
        matches_at(s, i, enc_obj(tag, body)),
    ensures
        0 <= i < s.len() && s[i] == '{',
        skip_ws(s, i) == i,
        tok(s, i, '{') == Some(i + 1),
        p_sval(s, i + 1) == Some((tag, i + 1 + enc_jstr(tag).len())),
        tok(s, i + 1 + enc_jstr(tag).len(), ':') == Some(i + 2 + enc_jstr(tag).len()),
        matches_at(s, i + 2 + enc_jstr(tag).len(), body),
        tok(s, i + 2 + enc_jstr(tag).len() + body.len(), '}') == Some(i + enc_obj(
            tag,
            body,
        ).len()),
{
    let key = enc_jstr(tag) + seq![':'];
    assert(enc_obj(tag, body) =~= seq!['{'] + (key + (body + seq!['}'])));
    lemma_split2(s, i, seq!['{'], key + (body + seq!['}']));
    lemma_char_at(s, i, seq!['{'], 0);
    lemma_skip_ws_id(s, i);
    lemma_tok_of_enc(s, i, '{');
    lemma_split2(s, i + 1, key, body + seq!['}']);
    lemma_split2(s, i + 1, enc_jstr(tag), seq![':']);
    lemma_p_sval_of_enc(s, i + 1, tag);
    lemma_tok_of_enc(s, i + 1 + enc_jstr(tag).len(), ':');
    lemma_split2(s, i + 1 + key.len(), body, seq!['}']);
    lemma_tok_of_enc(s, i + 1 + key.len() + body.len(), '}');
}

/// `{"f":"x"}` parses back to `x`.
proof fn lemma_f1_s_rt(s: Seq<char>, i: int, f: Seq<char>, x: Seq<char>)
    requires
        matches_at(s, i, enc_f1(f, enc_jstr(x))),
    ensures
        p_f1_s(s, i, f) == Some((x, i + enc_f1(f, enc_jstr(x)).len())),
{
    let v = enc_jstr(x);
    let key = enc_jstr(f) + seq![':'];
    assert(enc_f1(f, v) =~= seq!['{'] + (key + (v + seq!['}'])));
    lemma_split2(s, i, seq!['{'], key + (v + seq!['}']));
    lemma_char_at(s, i, seq!['{'], 0);
    lemma_tok_of_enc(s, i, '{');
    lemma_split2(s, i + 1, key, v + seq!['}']);
    assert(key =~= enc_entry(f, Seq::empty()));
    lemma_p_key_of_enc(s, i + 1, f);
    lemma_split2(s, i + 1 + key.len(), v, seq!['}']);
    lemma_p_sval_of_enc(s, i + 1 + key.len(), x);
    lemma_tok_of_enc(s, i + 1 + key.len() + v.len(), '}');
}

/// `{"f":n}` parses back to `n`.
proof fn lemma_f1_u_rt(s: Seq<char>, i: int, f: Seq<char>, n: u64)
    requires
        matches_at(s, i, enc_f1(f, enc_u64(n as int))),
    ensures
        p_f1_u(s, i, f) == Some((n, i + enc_f1(f, enc_u64(n as int)).len())),
{
    let v = enc_u64(n as int);
    let key = enc_jstr(f) + seq![':'];
    assert(enc_f1(f, v) =~= seq!['{'] + (key + (v + seq!['}'])));
    lemma_split2(s, i, seq!['{'], key + (v + seq!['}']));
    lemma_char_at(s, i, seq!['{'], 0);
    lemma_tok_of_enc(s, i, '{');
    lemma_split2(s, i + 1, key, v + seq!['}']);
    assert(key =~= enc_entry(f, Seq::empty()));
    lemma_p_key_of_enc(s, i + 1, f);
    lemma_split2(s, i + 1 + key.len(), v, seq!['}']);
    lemma_char_at(s, i + 1 + key.len() + v.len(), seq!['}'], 0);
    assert(!is_digit(s[i + 1 + key.len() + v.len()]));
    lemma_p_nval_of_enc(s, i + 1 + key.len(), n);
    lemma_tok_of_enc(s, i + 1 + key.len() + v.len(), '}');
}

/// `{"f":"<uuid>"}` parses back to the identifier bits.
proof fn lemma_f1_uid_rt(s: Seq<char>, i: int, f: Seq<char>, u: u128)
    requires
        matches_at(s, i, enc_f1(f, enc_uid(u))),
    ensures
        p_f1_uid(s, i, f) == Some((u, i + enc_f1(f, enc_uid(u)).len())),
{
    let v = enc_uid(u);
    let key = enc_jstr(f) + seq![':'];
    assert(enc_f1(f, v) =~= seq!['{'] + (key + (v + seq!['}'])));
    lemma_split2(s, i, seq!['{'], key + (v + seq!['}']));
    lemma_char_at(s, i, seq!['{'], 0);
    lemma_tok_of_enc(s, i, '{');
    lemma_split2(s, i + 1, key, v + seq!['}']);
    assert(key =~= enc_entry(f, Seq::empty()));
    lemma_p_key_of_enc(s, i + 1, f);
    lemma_split2(s, i + 1 + key.len(), v, seq!['}']);
    lemma_p_uidval_of_enc(s, i + 1 + key.len(), u);
    crate::ids::lemma_enc_hex_len(u as int, 32);
    assert(v.len() == 38);
    lemma_tok_of_enc(s, i + 1 + key.len() + v.len(), '}');
}

/// `{"f1":"x","f2":"<uuid>"}` parses back to the pair.
proof fn lemma_f2_s_uid_rt(s: Seq<char>, i: int, f1: Seq<char>, f2: Seq<char>, x: Seq<char>, u: u128)
    requires
        matches_at(s, i, enc_f2(f1, enc_jstr(x), f2, enc_uid(u))),
    ensures
        p_f2_s_uid(s, i, f1, f2) == Some(
            ((x, u), i + enc_f2(f1, enc_jstr(x), f2, enc_uid(u)).len()),
        ),
{
    let v1 = enc_jstr(x);
    let v2 = enc_uid(u);
    let k1 = enc_jstr(f1) + seq![':'];
    let k2 = enc_jstr(f2) + seq![':'];
    assert(enc_f2(f1, v1, f2, v2) =~= seq!['{'] + (k1 + (v1 + (seq![','] + (k2 + (v2
        + seq!['}']))))));
    lemma_split2(s, i, seq!['{'], k1 + (v1 + (seq![','] + (k2 + (v2 + seq!['}'])))));
    lemma_char_at(s, i, seq!['{'], 0);
    lemma_tok_of_enc(s, i, '{');
    lemma_split2(s, i + 1, k1, v1 + (seq![','] + (k2 + (v2 + seq!['}']))));
    assert(k1 =~= enc_entry(f1, Seq::empty()));
    lemma_p_key_of_enc(s, i + 1, f1);
    let a = i + 1 + k1.len();
    lemma_split2(s, a, v1, seq![','] + (k2 + (v2 + seq!['}'])));
    lemma_p_sval_of_enc(s, a, x);
    lemma_split2(s, a + v1.len(), seq![','], k2 + (v2 + seq!['}']));
    lemma_tok_of_enc(s, a + v1.len(), ',');
    let b: int = a + v1.len() + 1;
    lemma_split2(s, b, k2, v2 + seq!['}']);
    assert(k2 =~= enc_entry(f2, Seq::empty()));
    lemma_p_key_of_enc(s, b, f2);
    let c = b + k2.len();
    lemma_split2(s, c, v2, seq!['}']);
    lemma_p_uidval_of_enc(s, c, u);
    crate::ids::lemma_enc_hex_len(u as int, 32);
    assert(v2.len() == 38);
    lemma_tok_of_enc(s, c + v2.len(), '}');
}

/// `{"f1":"x","f2":"y"}` parses back to the pair.
proof fn lemma_f2_s_s_rt(s: Seq<char>, i: int, f1: Seq<char>, f2: Seq<char>, x: Seq<char>, y: Seq<char>)
    requires
        matches_at(s, i, enc_f2(f1, enc_jstr(x), f2, enc_jstr(y))),
    ensures
        p_f2_s_s(s, i, f1, f2) == Some(
            ((x, y), i + enc_f2(f1, enc_jstr(x), f2, enc_jstr(y)).len()),
        ),
{
    let v1 = enc_jstr(x);
    let v2 = enc_jstr(y);
    let k1 = enc_jstr(f1) + seq![':'];
    let k2 = enc_jstr(f2) + seq![':'];
    assert(enc_f2(f1, v1, f2, v2) =~= seq!['{'] + (k1 + (v1 + (seq![','] + (k2 + (v2
        + seq!['}']))))));
    lemma_split2(s, i, seq!['{'], k1 + (v1 + (seq![','] + (k2 + (v2 + seq!['}'])))));
    lemma_char_at(s, i, seq!['{'], 0);
    lemma_tok_of_enc(s, i, '{');
    lemma_split2(s, i + 1, k1, v1 + (seq![','] + (k2 + (v2 + seq!['}']))));
    assert(k1 =~= enc_entry(f1, Seq::empty()));
    lemma_p_key_of_enc(s, i + 1, f1);
    let a = i + 1 + k1.len();
    lemma_split2(s, a, v1, seq![','] + (k2 + (v2 + seq!['}'])));
    lemma_p_sval_of_enc(s, a, x);
    lemma_split2(s, a + v1.len(), seq![','], k2 + (v2 + seq!['}']));
    lemma_tok_of_enc(s, a + v1.len(), ',');
    let b: int = a + v1.len() + 1;
    lemma_split2(s, b, k2, v2 + seq!['}']);
    assert(k2 =~= enc_entry(f2, Seq::empty()));
    lemma_p_key_of_enc(s, b, f2);
    let c = b + k2.len();
    lemma_split2(s, c, v2, seq!['}']);
    lemma_p_sval_of_enc(s, c, y);
    lemma_tok_of_enc(s, c + v2.len(), '}');
}

/// A tick destination parses back to itself.
proof fn lemma_hist_rt(s: Seq<char>, i: int, h: HistV)
    requires
        matches_at(s, i, enc_hist(h)),
    ensures
        p_hist(s, i) == Some((h, i + enc_hist(h).len())),
{
    lemma_tag_shapes();
    match h {
        HistV::Console => {
            lemma_char_at(s, i, enc_hist(h), 0);
            assert(s[i] == '"');
            lemma_skip_ws_id(s, i);
            lemma_parse_jstr_of_enc(s, i, "Console"@);
        },
        HistV::Flatfile { filename } => {
            let body = enc_f1("filename"@, enc_jstr(filename));
            lemma_obj_shell(s, i, "Flatfile"@, body);
            lemma_f1_s_rt(s, i + 2 + enc_jstr("Flatfile"@).len(), "filename"@, filename);
        },
        HistV::Postgres { table } => {
            let body = enc_f1("table"@, enc_jstr(table));
            lemma_obj_shell(s, i, "Postgres"@, body);
            lemma_f1_s_rt(s, i + 2 + enc_jstr("Postgres"@).len(), "table"@, table);
        },
        HistV::RedisChannel { host, channel } => {
            let body = enc_f2("host"@, enc_jstr(host), "channel"@, enc_jstr(channel));
            lemma_obj_shell(s, i, "RedisChannel"@, body);
            lemma_f2_s_s_rt(
                s,
                i + 2 + enc_jstr("RedisChannel"@).len(),
                "host"@,
                "channel"@,
                host,
                channel,
            );
        },
        HistV::RedisSet { host, set_name } => {
            let body = enc_f2("host"@, enc_jstr(host), "set_name"@, enc_jstr(set_name));
            lemma_obj_shell(s, i, "RedisSet"@, body);
            lemma_f2_s_s_rt(
                s,
                i + 2 + enc_jstr("RedisSet"@).len(),
                "host"@,
                "set_name"@,
                host,
                set_name,
            );
        },
    }
}

/// The download commands' field object parses back to its fields.
#[verifier::rlimit(100)]
#[verifier::spinoff_prover]
proof fn lemma_dl_rt(s: Seq<char>, i: int, st: Seq<char>, et: Seq<char>, sym: Seq<char>, d: HistV)
    requires
        matches_at(s, i, enc_f4(
            "start_time"@, enc_jstr(st),
            "end_time"@, enc_jstr(et),
            "symbol"@, enc_jstr(sym),
            "dst"@, enc_hist(d),
        )),
    ensures
        p_dl_fields(s, i) == Some(((st, et, sym, d), i + enc_f4(
            "start_time"@, enc_jstr(st),
            "end_time"@, enc_jstr(et),
            "symbol"@, enc_jstr(sym),
            "dst"@, enc_hist(d),
        ).len())),
{
    let v1 = enc_jstr(st);
    let v2 = enc_jstr(et);
    let v3 = enc_jstr(sym);
    let v4 = enc_hist(d);
    let k1 = enc_jstr("start_time"@) + seq![':'];
    let k2 = enc_jstr("end_time"@) + seq![':'];
    let k3 = enc_jstr("symbol"@) + seq![':'];
    let k4 = enc_jstr("dst"@) + seq![':'];
    let e = enc_f4("start_time"@, v1, "end_time"@, v2, "symbol"@, v3, "dst"@, v4);
    assert(e =~= seq!['{'] + (k1 + (v1 + (seq![','] + (k2 + (v2 + (seq![','] + (k3 + (v3
        + (seq![','] + (k4 + (v4 + seq!['}']))))))))))));
    lemma_split2(s, i, seq!['{'], k1 + (v1 + (seq![','] + (k2 + (v2 + (seq![','] + (k3 + (v3
        + (seq![','] + (k4 + (v4 + seq!['}'])))))))))));
    lemma_char_at(s, i, seq!['{'], 0);
    lemma_tok_of_enc(s, i, '{');
    let a0 = i + 1;
    lemma_split2(s, a0, k1, v1 + (seq![','] + (k2 + (v2 + (seq![','] + (k3 + (v3 + (seq![','] + (
    k4 + (v4 + seq!['}']))))))))));
    assert(k1 =~= enc_entry("start_time"@, Seq::empty()));
    lemma_p_key_of_enc(s, a0, "start_time"@);
    let a1 = a0 + k1.len();
    lemma_split2(s, a1, v1, seq![','] + (k2 + (v2 + (seq![','] + (k3 + (v3 + (seq![','] + (k4 + (
    v4 + seq!['}'])))))))));
    lemma_p_sval_of_enc(s, a1, st);
    let a2 = a1 + v1.len();
    lemma_split2(s, a2, seq![','], k2 + (v2 + (seq![','] + (k3 + (v3 + (seq![','] + (k4 + (v4
        + seq!['}']))))))));
    lemma_tok_of_enc(s, a2, ',');
    let a3 = a2 + 1;
    lemma_split2(s, a3, k2, v2 + (seq![','] + (k3 + (v3 + (seq![','] + (k4 + (v4
        + seq!['}'])))))));
    assert(k2 =~= enc_entry("end_time"@, Seq::empty()));
    lemma_p_key_of_enc(s, a3, "end_time"@);
    let a4 = a3 + k2.len();
    lemma_split2(s, a4, v2, seq![','] + (k3 + (v3 + (seq![','] + (k4 + (v4 + seq!['}']))))));
    lemma_p_sval_of_enc(s, a4, et);
    let a5 = a4 + v2.len();
    lemma_split2(s, a5, seq![','], k3 + (v3 + (seq![','] + (k4 + (v4 + seq!['}'])))));
    lemma_tok_of_enc(s, a5, ',');
    let a6 = a5 + 1;
    lemma_split2(s, a6, k3, v3 + (seq![','] + (k4 + (v4 + seq!['}']))));
    assert(k3 =~= enc_entry("symbol"@, Seq::empty()));
    lemma_p_key_of_enc(s, a6, "symbol"@);
    let a7 = a6 + k3.len();
    lemma_split2(s, a7, v3, seq![','] + (k4 + (v4 + seq!['}'])));
    lemma_p_sval_of_enc(s, a7, sym);
    let a8 = a7 + v3.len();
    lemma_split2(s, a8, seq![','], k4 + (v4 + seq!['}']));
    lemma_tok_of_enc(s, a8, ',');
    let a9 = a8 + 1;
    lemma_split2(s, a9, k4, v4 + seq!['}']);
    assert(k4 =~= enc_entry("dst"@, Seq::empty()));
    lemma_p_key_of_enc(s, a9, "dst"@);
    let a10 = a9 + k4.len();
    lemma_split2(s, a10, v4, seq!['}']);
    lemma_hist_rt(s, a10, d);
    lemma_tok_of_enc(s, a10 + v4.len(), '}');
}

/// Non-empty array items decompose from the front.
proof fn lemma_arr_items_front(vs: Seq<Seq<char>>)
    requires
        vs.len() >= 2,
    ensures
        enc_arr_items(vs) == enc_jstr(vs[0]) + seq![','] + enc_arr_items(
            vs.subrange(1, vs.len() as int),
        ),
    decreases vs.len(),
{
    let tail = vs.subrange(1, vs.len() as int);
    if vs.len() == 2 {
        assert(vs.drop_last() =~= seq![vs[0]]);
        assert(enc_arr_items(seq![vs[0]]) == enc_jstr(vs[0]));
        assert(tail =~= seq![vs[1]]);
        assert(enc_arr_items(vs) =~= enc_jstr(vs[0]) + seq![','] + enc_arr_items(tail));
    } else {
        lemma_arr_items_front(vs.drop_last());
        assert(vs.drop_last().subrange(1, vs.len() - 1) =~= tail.drop_last());
        assert(vs.drop_last()[0] == vs[0]);
        assert(tail.last() == vs.last());
        assert(enc_arr_items(vs) =~= enc_jstr(vs[0]) + seq![','] + enc_arr_items(tail));
    }
}

/// Array items followed by the closing bracket parse back to the items.
proof fn lemma_arr_items_rt(s: Seq<char>, i: int, vs: Seq<Seq<char>>)
    requires
        vs.len() >= 1,
        matches_at(s, i, enc_arr_items(vs) + seq![']']),
    ensures
        p_arr_items(s, i) == Some((vs, i + enc_arr_items(vs).len() + 1)),
    decreases vs.len(),
{
    if vs.len() == 1 {
        assert(enc_arr_items(vs) == enc_jstr(vs[0]));
        lemma_split2(s, i, enc_jstr(vs[0]), seq![']']);
        lemma_p_sval_of_enc(s, i, vs[0]);
        lemma_tok_of_enc(s, i + enc_jstr(vs[0]).len(), ']');
        assert(seq![vs[0]] =~= vs);
    } else {
        let tail = vs.subrange(1, vs.len() as int);
        lemma_arr_items_front(vs);
        assert(enc_arr_items(vs) + seq![']'] =~= enc_jstr(vs[0]) + (seq![','] + (enc_arr_items(
            tail,
        ) + seq![']'])));
        lemma_split2(s, i, enc_jstr(vs[0]), seq![','] + (enc_arr_items(tail) + seq![']']));
        lemma_p_sval_of_enc(s, i, vs[0]);
        let j = i + enc_jstr(vs[0]).len();
        lemma_split2(s, j, seq![','], enc_arr_items(tail) + seq![']']);
        lemma_tok_of_enc(s, j, ',');
        lemma_char_at(s, j, seq![','], 0);
        // the close-bracket token fails here: the next character is a comma
        lemma_skip_ws_id(s, j);
        assert(tok(s, j, ']') is None);
        lemma_arr_items_rt(s, j + 1, tail);
        assert(seq![vs[0]] + tail =~= vs);
    }
}

/// A string array parses back to its items.
proof fn lemma_arr_rt(s: Seq<char>, i: int, vs: Seq<Seq<char>>)
    requires
        matches_at(s, i, enc_arr(vs)),
    ensures
        p_arr(s, i) == Some((vs, i + enc_arr(vs).len())),
{
    assert(enc_arr(vs) =~= seq!['['] + (enc_arr_items(vs) + seq![']']));
    lemma_split2(s, i, seq!['['], enc_arr_items(vs) + seq![']']);
    lemma_char_at(s, i, seq!['['], 0);
    lemma_tok_of_enc(s, i, '[');
    if vs.len() == 0 {
        assert(enc_arr_items(vs) + seq![']'] =~= seq![']']);
        lemma_tok_of_enc(s, i + 1, ']');
    } else {
        // the close-bracket token fails: the next character opens a string
        if vs.len() == 1 {
            assert(enc_arr_items(vs) == enc_jstr(vs[0]));
        } else {
            lemma_arr_items_front(vs);
        }
        lemma_split2(s, i + 1, enc_arr_items(vs), seq![']']);
        lemma_char_at(s, i + 1, enc_arr_items(vs), 0);
        assert(enc_arr_items(vs)[0] == '"');
        lemma_skip_ws_id(s, i + 1);
        assert(tok(s, i + 1, ']') is None);
        lemma_arr_items_rt(s, i + 1, vs);
    }
}

/// Codec round trip for commands, at any position and with any suffix.
#[verifier::rlimit(100)]
#[verifier::spinoff_prover]
proof fn lemma_cmd_rt(s: Seq<char>, i: int, c: CmdV)
    requires
        matches_at(s, i, enc_cmd(c)),
    ensures
        p_cmd(s, i) == Some((c, i + enc_cmd(c).len())),
{
    lemma_tag_shapes();
    match c {
        CmdV::Ping | CmdV::Shutdown | CmdV::Kill | CmdV::Type | CmdV::SpawnMM | CmdV::Census
            | CmdV::SpawnBacktester | CmdV::SpawnFxcmDataDownloader | CmdV::KillAllInstances
            | CmdV::ListBacktests | CmdV::ListSimbrokers | CmdV::ListRunningDownloads => {
            let tag = match c {
                CmdV::Ping => "Ping"@,
                CmdV::Shutdown => "Shutdown"@,
                CmdV::Kill => "Kill"@,
                CmdV::Type => "Type"@,
                CmdV::SpawnMM => "SpawnMM"@,
                CmdV::Census => "Census"@,
                CmdV::SpawnBacktester => "SpawnBacktester"@,
                CmdV::SpawnFxcmDataDownloader => "SpawnFxcmDataDownloader"@,
                CmdV::KillAllInstances => "KillAllInstances"@,
                CmdV::ListBacktests => "ListBacktests"@,
                CmdV::ListSimbrokers => "ListSimbrokers"@,
                _ => "ListRunningDownloads"@,
            };
            assert(enc_cmd(c) == enc_jstr(tag));
            lemma_char_at(s, i, enc_jstr(tag), 0);
            assert(s[i] == '"');
            lemma_skip_ws_id(s, i);
            lemma_parse_jstr_of_enc(s, i, tag);
        },
        CmdV::Register { channel } => {
            let body = enc_f1("channel"@, enc_jstr(channel));
            lemma_obj_shell(s, i, "Register"@, body);
            lemma_f1_s_rt(s, i + 2 + enc_jstr("Register"@).len(), "channel"@, channel);
        },
        CmdV::Ready { instance_type, uuid } => {
            let body = enc_f2("instance_type"@, enc_jstr(instance_type), "uuid"@, enc_uid(uuid));
            lemma_obj_shell(s, i, "Ready"@, body);
            lemma_f2_s_uid_rt(
                s,
                i + 2 + enc_jstr("Ready"@).len(),
                "instance_type"@,
                "uuid"@,
                instance_type,
                uuid,
            );
        },
        CmdV::AddSMA { period } => {
            let body = enc_f1("period"@, enc_u64(period as int));
            lemma_obj_shell(s, i, "AddSMA"@, body);
            lemma_f1_u_rt(s, i + 2 + enc_jstr("AddSMA"@).len(), "period"@, period);
        },
        CmdV::RemoveSMA { period } => {
            let body = enc_f1("period"@, enc_u64(period as int));
            lemma_obj_shell(s, i, "RemoveSMA"@, body);
            lemma_f1_u_rt(s, i + 2 + enc_jstr("RemoveSMA"@).len(), "period"@, period);
        },
        CmdV::SpawnOptimizer { strategy } => {
            let body = enc_f1("strategy"@, enc_jstr(strategy));
            lemma_obj_shell(s, i, "SpawnOptimizer"@, body);
            lemma_f1_s_rt(s, i + 2 + enc_jstr("SpawnOptimizer"@).len(), "strategy"@, strategy);
        },
        CmdV::SpawnTickParser { symbol } => {
            let body = enc_f1("symbol"@, enc_jstr(symbol));
            lemma_obj_shell(s, i, "SpawnTickParser"@, body);
            lemma_f1_s_rt(s, i + 2 + enc_jstr("SpawnTickParser"@).len(), "symbol"@, symbol);
        },
        CmdV::KillInstance { uuid } => {
            let body = enc_f1("uuid"@, enc_uid(uuid));
            lemma_obj_shell(s, i, "KillInstance"@, body);
            lemma_f1_uid_rt(s, i + 2 + enc_jstr("KillInstance"@).len(), "uuid"@, uuid);
        },
        CmdV::StartBacktest { definition } => {
            let body = enc_f1("definition"@, enc_jstr(definition));
            lemma_obj_shell(s, i, "StartBacktest"@, body);
            lemma_f1_s_rt(s, i + 2 + enc_jstr("StartBacktest"@).len(), "definition"@, definition);
        },
        CmdV::PauseBacktest { uuid } => {
            let body = enc_f1("uuid"@, enc_uid(uuid));
            lemma_obj_shell(s, i, "PauseBacktest"@, body);
            lemma_f1_uid_rt(s, i + 2 + enc_jstr("PauseBacktest"@).len(), "uuid"@, uuid);
        },
        CmdV::ResumeBacktest { uuid } => {
            let body = enc_f1("uuid"@, enc_uid(uuid));
            lemma_obj_shell(s, i, "ResumeBacktest"@, body);
            lemma_f1_uid_rt(s, i + 2 + enc_jstr("ResumeBacktest"@).len(), "uuid"@, uuid);
        },
        CmdV::StopBacktest { uuid } => {
            let body = enc_f1("uuid"@, enc_uid(uuid));
            lemma_obj_shell(s, i, "StopBacktest"@, body);
            lemma_f1_uid_rt(s, i + 2 + enc_jstr("StopBacktest"@).len(), "uuid"@, uuid);
        },
        CmdV::SpawnSimbroker { starting_balance } => {
            let inner = enc_f1("starting_balance"@, enc_u64(starting_balance as int));
            let body = enc_f1("settings"@, inner);
            lemma_obj_shell(s, i, "SpawnSimbroker"@, body);
            let j = i + 2 + enc_jstr("SpawnSimbroker"@).len();
            let key = enc_jstr("settings"@) + seq![':'];
            assert(body =~= seq!['{'] + (key + (inner + seq!['}'])));
            lemma_split2(s, j, seq!['{'], key + (inner + seq!['}']));
            lemma_char_at(s, j, seq!['{'], 0);
            lemma_tok_of_enc(s, j, '{');
            lemma_split2(s, j + 1, key, inner + seq!['}']);
            assert(key =~= enc_entry("settings"@, Seq::empty()));
            lemma_p_key_of_enc(s, j + 1, "settings"@);
            lemma_split2(s, j + 1 + key.len(), inner, seq!['}']);
            lemma_f1_u_rt(s, j + 1 + key.len(), "starting_balance"@, starting_balance);
            lemma_tok_of_enc(s, j + 1 + key.len() + inner.len(), '}');
        },
        CmdV::DownloadTicks { start_time, end_time, symbol, dst } => {
            let body = enc_f4(
                "start_time"@, enc_jstr(start_time),
                "end_time"@, enc_jstr(end_time),
                "symbol"@, enc_jstr(symbol),
                "dst"@, enc_hist(dst),
            );
            lemma_obj_shell(s, i, "DownloadTicks"@, body);
            lemma_dl_rt(
                s,
                i + 2 + enc_jstr("DownloadTicks"@).len(),
                start_time,
                end_time,
                symbol,
                dst,
            );
        },
        CmdV::DownloadComplete { start_time, end_time, symbol, dst } => {
            let body = enc_f4(
                "start_time"@, enc_jstr(start_time),
                "end_time"@, enc_jstr(end_time),
                "symbol"@, enc_jstr(symbol),
                "dst"@, enc_hist(dst),
            );
            lemma_obj_shell(s, i, "DownloadComplete"@, body);
            lemma_dl_rt(
                s,
                i + 2 + enc_jstr("DownloadComplete"@).len(),
                start_time,
                end_time,
                symbol,
                dst,
            );
        },
    }
}

/// Codec round trip for responses, at any position and with any suffix.
#[verifier::rlimit(50)]
#[verifier::spinoff_prover]
proof fn lemma_resp_rt(s: Seq<char>, i: int, r: RespV)
    requires
        matches_at(s, i, enc_resp(r)),
    ensures
        p_resp(s, i) == Some((r, i + enc_resp(r).len())),
{
    lemma_tag_shapes();
    match r {
        RespV::Okay => {
            lemma_char_at(s, i, enc_jstr("Ok"@), 0);
            assert(s[i] == '"');
            lemma_skip_ws_id(s, i);
            lemma_parse_jstr_of_enc(s, i, "Ok"@);
        },
        RespV::Error { status } => {
            let body = enc_f1("status"@, enc_jstr(status));
            lemma_obj_shell(s, i, "Error"@, body);
            lemma_f1_s_rt(s, i + 2 + enc_jstr("Error"@).len(), "status"@, status);
        },
        RespV::Info { info } => {
            let body = enc_f1("info"@, enc_jstr(info));
            lemma_obj_shell(s, i, "Info"@, body);
            lemma_f1_s_rt(s, i + 2 + enc_jstr("Info"@).len(), "info"@, info);
        },
        RespV::Pong { args } => {
            let inner = enc_arr(args);
            let body = enc_f1("args"@, inner);
            lemma_obj_shell(s, i, "Pong"@, body);
            let j = i + 2 + enc_jstr("Pong"@).len();
            let key = enc_jstr("args"@) + seq![':'];
            assert(body =~= seq!['{'] + (key + (inner + seq!['}'])));
            lemma_split2(s, j, seq!['{'], key + (inner + seq!['}']));
            lemma_char_at(s, j, seq!['{'], 0);
            lemma_tok_of_enc(s, j, '{');
            lemma_split2(s, j + 1, key, inner + seq!['}']);
            assert(key =~= enc_entry("args"@, Seq::empty()));
            lemma_p_key_of_enc(s, j + 1, "args"@);
            lemma_split2(s, j + 1 + key.len(), inner, seq!['}']);
            lemma_arr_rt(s, j + 1 + key.len(), args);
            lemma_tok_of_enc(s, j + 1 + key.len() + inner.len(), '}');
        },
    }
}

/// Codec round trip: every command decodes from its own encoding.
pub proof fn lemma_command_round_trip(c: CmdV)
    ensures
        p_cmd_text(enc_cmd(c)) == Some(c),
{
    let s = enc_cmd(c);
    assert(s.subrange(0, s.len() as int) =~= s);
    assert(matches_at(s, 0, s));
    lemma_cmd_rt(s, 0, c);
}

/// Codec round trip: every response decodes from its own encoding.
pub proof fn lemma_response_round_trip(r: RespV)
    ensures
        p_resp_text(enc_resp(r)) == Some(r),
{
    let s = enc_resp(r);
    assert(s.subrange(0, s.len() as int) =~= s);
    assert(matches_at(s, 0, s));
    lemma_resp_rt(s, 0, r);
}

/// Codec round trip for the wrapped command envelope.
#[verifier::rlimit(100)]
#[verifier::spinoff_prover]
pub proof fn lemma_wrapped_command_round_trip(w: WcV)
    ensures
        p_wc_text(enc_wrapped_cmd(w)) == Some(w),
{
    let s = enc_wrapped_cmd(w);
    assert(s.subrange(0, s.len() as int) =~= s);
    assert(matches_at(s, 0, s));
    let v1 = enc_uid(w.uuid);
    let v2 = enc_cmd(w.cmd);
    let k1 = enc_jstr("uuid"@) + seq![':'];
    let k2 = enc_jstr("cmd"@) + seq![':'];
    assert(s =~= seq!['{'] + (k1 + (v1 + (seq![','] + (k2 + (v2 + seq!['}']))))));
    lemma_split2(s, 0, seq!['{'], k1 + (v1 + (seq![','] + (k2 + (v2 + seq!['}'])))));
    lemma_char_at(s, 0, seq!['{'], 0);
    lemma_tok_of_enc(s, 0, '{');
    lemma_split2(s, 1, k1, v1 + (seq![','] + (k2 + (v2 + seq!['}']))));
    assert(k1 =~= enc_entry("uuid"@, Seq::empty()));
    lemma_p_key_of_enc(s, 1, "uuid"@);
    let a: int = 1 + k1.len() as int;
    lemma_split2(s, a, v1, seq![','] + (k2 + (v2 + seq!['}'])));
    lemma_p_uidval_of_enc(s, a, w.uuid);
    crate::ids::lemma_enc_hex_len(w.uuid as int, 32);
    assert(v1.len() == 38);
    lemma_split2(s, a + v1.len(), seq![','], k2 + (v2 + seq!['}']));
    lemma_tok_of_enc(s, a + v1.len(), ',');
    let b: int = a + v1.len() + 1;
    lemma_split2(s, b, k2, v2 + seq!['}']);
    assert(k2 =~= enc_entry("cmd"@, Seq::empty()));
    lemma_p_key_of_enc(s, b, "cmd"@);
    let d: int = b + k2.len();
    lemma_split2(s, d, v2, seq!['}']);
    lemma_cmd_rt(s, d, w.cmd);
    lemma_tok_of_enc(s, d + v2.len(), '}');
}

/// Codec round trip for the wrapped response envelope.
#[verifier::rlimit(100)]
#[verifier::spinoff_prover]
pub proof fn lemma_wrapped_response_round_trip(w: WrV)
    ensures
        p_wr_text(enc_wrapped_resp(w)) == Some(w),
{
    let s = enc_wrapped_resp(w);
    assert(s.subrange(0, s.len() as int) =~= s);
    assert(matches_at(s, 0, s));
    let v1 = enc_uid(w.uuid);
    let v2 = enc_resp(w.res);
    let k1 = enc_jstr("uuid"@) + seq![':'];
    let k2 = enc_jstr("res"@) + seq![':'];
    assert(s =~= seq!['{'] + (k1 + (v1 + (seq![','] + (k2 + (v2 + seq!['}']))))));
    lemma_split2(s, 0, seq!['{'], k1 + (v1 + (seq![','] + (k2 + (v2 + seq!['}'])))));
    lemma_char_at(s, 0, seq!['{'], 0);
    lemma_tok_of_enc(s, 0, '{');
    lemma_split2(s, 1, k1, v1 + (seq![','] + (k2 + (v2 + seq!['}']))));
    assert(k1 =~= enc_entry("uuid"@, Seq::empty()));
    lemma_p_key_of_enc(s, 1, "uuid"@);
    let a: int = 1 + k1.len() as int;
    lemma_split2(s, a, v1, seq![','] + (k2 + (v2 + seq!['}'])));
    lemma_p_uidval_of_enc(s, a, w.uuid);
    crate::ids::lemma_enc_hex_len(w.uuid as int, 32);
    assert(v1.len() == 38);
    lemma_split2(s, a + v1.len(), seq![','], k2 + (v2 + seq!['}']));
    lemma_tok_of_enc(s, a + v1.len(), ',');
    let b: int = a + v1.len() + 1;
    lemma_split2(s, b, k2, v2 + seq!['}']);
    assert(k2 =~= enc_entry("res"@, Seq::empty()));
    lemma_p_key_of_enc(s, b, "res"@);
    let d: int = b + k2.len();
    lemma_split2(s, d, v2, seq!['}']);
    lemma_resp_rt(s, d, w.res);
    lemma_tok_of_enc(s, d + v2.len(), '}');
    assert(tok(s, 0, '{') == Some(1int));
    assert(p_key(s, 1, "uuid"@) == Some(a));
    assert(p_uidval(s, a) == Some((w.uuid, a + 38)));
    assert(tok(s, a + 38, ',') == Some(b));
    assert(p_key(s, b, "res"@) == Some(d));
    assert(p_resp(s, d) == Some((w.res, d + v2.len())));
    assert(tok(s, d + v2.len(), '}') == Some(s.len() as int));
}

} // verus!
