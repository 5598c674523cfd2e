//! Tests for the moving average, the backtest engine's control plane, the
//! bus correlation logic, and the supervisor's membership decisions.

use algobot::backtest::{BacktestCommand, BacktestDefinition, BacktestType, Backtester,
    DataDest, DataSource};
use algobot::bus::{CommandServer, CsSettings, DeliverOutcome, TimeoutOutcome};
use algobot::commands::{Command, Response, SimBrokerSettings, WrappedResponse};
use algobot::ids::{uid_hyphenated, Uid};
use algobot::sma::{SMAList, SimpleMovingAverage};
use algobot::spawner::{Instance, InstanceManager, SpawnerSettings};
use algobot::tick::Tick;
use std::collections::HashSet;

fn t(bid: u64, ask: u64, ts: u64) -> Tick {
    Tick { bid, ask, timestamp: ts }
}

#[test]
fn sma_single_tick_returns_mid() {
    let mut sma = SimpleMovingAverage::new(10);
    let avg = sma.push(t(10, 14, 1));
    assert_eq!(avg, 12);
}

#[test]
fn sma_constant_mid_stays_constant() {
    // constant mid 12, uniform spacing; after the window fills the average
    // stays exactly 12
    let mut sma = SimpleMovingAverage::new(4);
    for ts in 1..40u64 {
        let avg = sma.push(t(10, 14, ts));
        assert_eq!(avg, 12);
    }
}

#[test]
fn sma_out_of_order_tick_is_detected() {
    let mut sma = SimpleMovingAverage::new(10);
    assert!(sma.push_checked(t(10, 14, 5)).is_some());
    assert_eq!(sma.push_checked(t(10, 14, 5)), None);
    assert_eq!(sma.push_checked(t(10, 14, 4)), None);
    assert!(sma.push_checked(t(10, 14, 6)).is_some());
}

#[test]
fn sma_weighted_average_moves_with_prices() {
    let mut sma = SimpleMovingAverage::new(100);
    assert_eq!(sma.push(t(10, 10, 1)), 10);
    // one unit at mid 10, one at mid 20: (10*1 + 20*... ) only adjacent
    // pairs weigh in, so after two ticks the average is the older mid
    assert_eq!(sma.push(t(20, 20, 2)), 10);
    assert_eq!(sma.push(t(40, 40, 3)), 15);
}

#[test]
fn sma_list_add_push_remove() {
    let mut list = SMAList::new();
    list.add(5);
    list.add(9);
    list.push_all(t(10, 14, 1));
    list.push_all(t(10, 14, 2));
    list.remove(5);
    list.remove(7); // absent period: a warning, not an error
    list.push_all(t(10, 14, 3));
}

#[test]
fn uuid_generation_has_no_collisions() {
    // across a million wraps, no duplicate correlation ids
    let mut seen: HashSet<u128> = HashSet::with_capacity(1_000_000);
    for _ in 0..1_000_000 {
        assert!(seen.insert(Uid::fresh().bits));
    }
}

fn settings() -> CsSettings {
    CsSettings {
        conn_count: 2,
        redis_host: "redis://127.0.0.1/".to_owned(),
        responses_channel: "responses".to_owned(),
        timeout: 50,
        max_retries: 2,
    }
}

#[test]
fn execute_pairs_response_with_waiter() {
    // two concurrent executes: each resolves with its own response only
    let mut cs = CommandServer::new(settings());
    let w1 = cs.execute_start(Command::Ping, "chan".to_owned());
    let w2 = cs.execute_start(Command::Type, "chan".to_owned());
    let r2 = Response::Info { info: "Spawner".to_owned() };
    let out = cs.on_response(WrappedResponse { uuid: w2.uuid, res: r2.clone() });
    assert_eq!(out, DeliverOutcome::Woke);
    assert_eq!(cs.poll_execute(w1.uuid), None);
    assert_eq!(cs.poll_execute(w2.uuid), Some(Ok(r2)));
    let out2 = cs.on_response(WrappedResponse { uuid: w1.uuid, res: Response::Okay });
    assert_eq!(out2, DeliverOutcome::Woke);
    assert_eq!(cs.poll_execute(w1.uuid), Some(Ok(Response::Okay)));
}

#[test]
fn timeout_republishes_exactly_max_retries_times() {
    // with max_retries = 2, exactly three copies are published, all under
    // one correlation id, before the call times out
    let mut cs = CommandServer::new(settings());
    let w = cs.execute_start(Command::Ping, "chan".to_owned());
    let mut published = vec![w.uuid];
    loop {
        match cs.on_timeout(w.uuid) {
            TimeoutOutcome::Republish(again) => {
                assert_eq!(again.uuid, w.uuid);
                published.push(again.uuid);
            },
            TimeoutOutcome::Expired => break,
            TimeoutOutcome::Ignored => panic!("slot vanished"),
        }
    }
    assert_eq!(published.len(), 3);
    assert_eq!(cs.poll_execute(w.uuid), Some(Err(())));
}

#[test]
fn broadcast_collects_all_matching_responses() {
    let mut cs = CommandServer::new(settings());
    let w = cs.broadcast_start(Command::Ping, "control".to_owned());
    for k in 0..3 {
        let res = Response::Pong { args: vec![format!("responder-{}", k)] };
        let out = cs.on_response(WrappedResponse { uuid: w.uuid, res });
        assert_eq!(out, DeliverOutcome::Collected);
    }
    // an unrelated response is discarded, not collected
    let stray = cs.on_response(WrappedResponse { uuid: Uid::fresh(), res: Response::Okay });
    assert_eq!(stray, DeliverOutcome::Discarded);
    let collected = cs.take_broadcast(w.uuid).unwrap();
    assert_eq!(collected.len(), 3);
    assert_eq!(collected[0], Response::Pong { args: vec!["responder-0".to_owned()] });

    let empty = cs.broadcast_start(Command::Ping, "control".to_owned());
    assert_eq!(cs.take_broadcast(empty.uuid).unwrap().len(), 0);
}

fn definition(max_tick_n: Option<u64>, max_timestamp: Option<u64>, channel: &str) -> BacktestDefinition {
    BacktestDefinition {
        start_time: None,
        max_tick_n,
        max_timestamp,
        symbol: "TEST".to_owned(),
        backtest_type: BacktestType::Fast { delay_ms: 0 },
        data_source: DataSource::Random,
        data_dest: DataDest::RedisChannel {
            host: "redis://127.0.0.1/".to_owned(),
            channel: channel.to_owned(),
        },
        broker_settings: SimBrokerSettings::default(),
    }
}

#[test]
fn backtest_n_early_exit() {
    let def = definition(Some(10), None, "test1_ii");
    let delivered = algobot::backtest::run_random_backtest(&def);
    assert_eq!(delivered.len(), 10);
}

#[test]
fn backtest_timestamp_early_exit() {
    // the random source emits timestamps 1, 2, 3, …; with max_timestamp = 8
    // exactly 8 ticks come out
    let def = definition(None, Some(8), "test2_ii");
    let delivered = algobot::backtest::run_random_backtest(&def);
    assert_eq!(delivered.len(), 8);
    assert_eq!(delivered[7].timestamp, 8);
}

#[test]
fn backtest_lifecycle_and_simbroker_registry() {
    let mut bt = Backtester::new();
    let missing = Uid::fresh();
    let mut def = definition(Some(5), None, "x");
    def.data_dest = DataDest::SimBroker { uuid: missing };
    let err = bt.start_backtest(def).unwrap_err();
    assert_eq!(err, "No SimBroker running with that Uuid!");

    let b_id = bt.init_simbroker(SimBrokerSettings { starting_balance: 100 });
    let mut def2 = definition(Some(5), None, "x");
    def2.data_dest = DataDest::SimBroker { uuid: b_id };
    let id = bt.start_backtest(def2).unwrap();

    // a second stream for the same symbol on the same broker is refused
    let mut def3 = definition(Some(5), None, "x");
    def3.data_dest = DataDest::SimBroker { uuid: b_id };
    assert!(bt.start_backtest(def3).is_err());

    assert!(bt.send_backtest_cmd(&id, BacktestCommand::Resume).is_ok());
    assert!(bt.send_backtest_cmd(&id, BacktestCommand::Pause).is_ok());
    assert!(bt.send_backtest_cmd(&id, BacktestCommand::Stop).is_ok());
    bt.remove_backtest(&id);
    assert!(bt.send_backtest_cmd(&id, BacktestCommand::Resume).is_err());
}

fn spawner() -> InstanceManager {
    InstanceManager::new(
        SpawnerSettings {
            kill_stragglers: true,
            dist_path: "dist/".to_owned(),
            node_binary_path: "node".to_owned(),
        },
        CommandServer::new(settings()),
    )
}

#[test]
fn spawner_command_processing() {
    let mut sup = spawner();
    let (res, effects) = sup.handle_command(Command::Ping);
    assert_eq!(res, Response::Pong { args: vec![uid_hyphenated(sup.uuid)] });
    assert!(effects.is_empty());

    let (res2, _) = sup.handle_command(Command::Type);
    assert_eq!(res2, Response::Info { info: "Spawner".to_owned() });

    let inst_id = Uid::fresh();
    let (res3, _) = sup.handle_command(Command::Ready {
        instance_type: "Backtester".to_owned(),
        uuid: inst_id,
    });
    assert_eq!(res3, Response::Okay);
    assert_eq!(sup.living.len(), 1);

    let (res4, _) = sup.handle_command(Command::ListBacktests);
    assert_eq!(
        res4,
        Response::Error { status: "Command not accepted by the instance spawner".to_owned() },
    );
}

#[test]
fn straggler_kill_targets_exactly_the_unknown_responder() {
    let mut sup = spawner();
    let known = Uid::fresh();
    sup.add_instance(Instance { instance_type: "Spawner".to_owned(), uuid: known });
    let stranger = Uid::fresh();
    let responses = vec![
        Response::Pong { args: vec![uid_hyphenated(known)] },
        Response::Pong { args: vec![uid_hyphenated(stranger)] },
        Response::Okay,
    ];
    let kills = sup.straggler_kills(&responses);
    assert_eq!(kills.len(), 1);
    assert_eq!(kills[0].0, uid_hyphenated(stranger));
    assert_eq!(kills[0].1.cmd, Command::Kill);
}

#[test]
fn missed_pong_gates_on_type_probe() {
    // one missed Pong deregisters the instance for probing but kills nothing;
    // an Info reply to the follow-up Type query reinstates it
    let mut sup = spawner();
    let id = Uid::fresh();
    sup.add_instance(Instance { instance_type: "TickParser".to_owned(), uuid: id });
    let probed = sup.heartbeat_select(&vec![]).unwrap();
    assert_eq!(probed.uuid, id);
    assert_eq!(sup.living.len(), 0);
    sup.apply_probe(probed, Some(Response::Info { info: "TickParser".to_owned() }));
    assert_eq!(sup.living.len(), 1);
    assert_eq!(sup.living[0].uuid, id);

    // a failed probe confirms the death: the instance stays out
    let probed2 = sup.heartbeat_select(&vec![]).unwrap();
    sup.apply_probe(probed2, None);
    assert_eq!(sup.living.len(), 0);
}

#[test]
fn kill_all_empties_the_living_list() {
    let mut sup = spawner();
    let a = Uid::fresh();
    let b = Uid::fresh();
    sup.add_instance(Instance { instance_type: "MM".to_owned(), uuid: a });
    sup.add_instance(Instance { instance_type: "Optimizer".to_owned(), uuid: b });
    let (res, effects) = sup.handle_command(Command::KillAllInstances);
    assert_eq!(res, Response::Okay);
    assert_eq!(effects.len(), 2);
    assert_eq!(sup.living.len(), 0);
}

#[test]
fn census_lists_the_living() {
    let mut sup = spawner();
    let id = Uid::fresh();
    sup.add_instance(Instance { instance_type: "MM".to_owned(), uuid: id });
    let (res, _) = sup.handle_command(Command::Census);
    let expected = format!("[{{\"instance_type\":\"MM\",\"uuid\":\"{}\"}}]", uid_hyphenated(id));
    assert_eq!(res, Response::Info { info: expected });
}

#[test]
fn spawn_commands_name_the_right_binaries() {
    let mut sup = spawner();
    let (_, sp) = sup.spawn_mm();
    assert_eq!(sp.path, "node");
    assert_eq!(sp.args[0], "dist/mm/manager.js");
    let (_, sp2) = sup.spawn_tick_parser("EURUSD".to_owned());
    assert_eq!(sp2.path, "dist/tick_processor");
    assert_eq!(sp2.args[1], "EURUSD");
}

#[test]
fn backtest_definition_text_parses() {
    let text = "{\"start_time\":null,\"max_tick_n\":10,\"max_timestamp\":null,\"symbol\":\"TEST\",\"backtest_type\":{\"Fast\":{\"delay_ms\":0}},\"data_source\":\"Random\",\"data_dest\":{\"RedisChannel\":{\"host\":\"h\",\"channel\":\"test1_ii\"}},\"broker_settings\":{\"starting_balance\":0}}";
    let def = BacktestDefinition::from_str(text).unwrap();
    assert_eq!(def.start_time, None);
    assert_eq!(def.max_tick_n, Some(10));
    assert_eq!(def.symbol, "TEST");
    assert_eq!(def.backtest_type, BacktestType::Fast { delay_ms: 0 });
    assert_eq!(def.data_source, DataSource::Random);
    assert_eq!(
        def.data_dest,
        DataDest::RedisChannel { host: "h".to_owned(), channel: "test1_ii".to_owned() },
    );
    assert!(BacktestDefinition::from_str("{\"start_time\":null}").is_err());
}

#[test]
fn backtester_command_processing() {
    let mut bt = Backtester::new();
    let (res, effects) = bt.handle_command(Command::Ping);
    assert_eq!(res, Response::Pong { args: vec![uid_hyphenated(bt.uuid)] });
    assert!(effects.is_empty());

    let (res, _) = bt.handle_command(Command::Type);
    assert_eq!(res, Response::Info { info: "Backtester".to_owned() });

    let (res, _) = bt.handle_command(Command::PauseBacktest { uuid: Uid::fresh() });
    assert_eq!(res, Response::Error { status: "No backtest with that uuid!".to_owned() });

    let (res, _) = bt.handle_command(Command::AddSMA { period: 3 });
    assert_eq!(
        res,
        Response::Error { status: "Backtester doesn't recognize that command.".to_owned() },
    );

    // spawn a simulated broker, then run a backtest into it by definition text
    let (res, _) = bt.handle_command(Command::SpawnSimbroker {
        settings: SimBrokerSettings { starting_balance: 5 },
    });
    let b_id = match res {
        Response::Info { info } => info,
        other => panic!("unexpected reply: {:?}", other),
    };
    let (res, _) = bt.handle_command(Command::ListSimbrokers);
    assert_eq!(res, Response::Info { info: format!("[\"{}\"]", b_id) });

    let text = format!(
        "{{\"start_time\":null,\"max_tick_n\":5,\"max_timestamp\":null,\"symbol\":\"TEST\",\"backtest_type\":\"Live\",\"data_source\":\"Random\",\"data_dest\":{{\"SimBroker\":{{\"uuid\":\"{}\"}}}},\"broker_settings\":{{\"starting_balance\":0}}}}",
        b_id,
    );
    let (res, _) = bt.handle_command(Command::StartBacktest { definition: text.clone() });
    let bt_id = match res {
        Response::Info { info } => info,
        other => panic!("start refused: {:?}", other),
    };

    // a second stream for the same symbol on the same broker is refused
    let (res, _) = bt.handle_command(Command::StartBacktest { definition: text });
    assert!(matches!(res, Response::Error { .. }));

    // the snapshot lists the one running backtest under its id
    let (res, _) = bt.handle_command(Command::ListBacktests);
    match res {
        Response::Info { info } => assert!(info.contains(&bt_id)),
        other => panic!("unexpected reply: {:?}", other),
    }

    // stop removes the handle; a second stop is a not-found error
    let id = algobot::ids::Uid { bits: parse_uid_text(&bt_id) };
    let (res, _) = bt.handle_command(Command::StopBacktest { uuid: id });
    assert_eq!(res, Response::Okay);
    let (res, _) = bt.handle_command(Command::StopBacktest { uuid: id });
    assert_eq!(res, Response::Error { status: "No backtest with that uuid!".to_owned() });

    // a malformed definition is reported, not dispatched
    let (res, _) = bt.handle_command(Command::StartBacktest { definition: "nope".to_owned() });
    assert!(matches!(res, Response::Error { .. }));
}

/// Reads the 128-bit value back out of a hyphenated id text.
fn parse_uid_text(s: &str) -> u128 {
    let mut acc: u128 = 0;
    for c in s.chars() {
        if c == '-' {
            continue;
        }
        acc = acc * 16 + c.to_digit(16).unwrap() as u128;
    }
    acc
}
