//! Codec tests: the wire-format round trips and the exact canonical texts.

use algobot::commands::{Command, HistTickDst, Response, SimBrokerSettings};
use algobot::ids::Uid;

#[test]
fn command_serialization() {
    let cmd_str = "{\"AddSMA\": {\"period\": 664} }";
    let cmd: Command = Command::from_str(cmd_str).unwrap();
    assert_eq!(cmd, Command::AddSMA { period: 664 });
}

#[test]
fn command_deserialization() {
    let cmd = Command::RemoveSMA { period: 664 };
    let cmd_string = cmd.to_string().unwrap();
    assert_eq!("{\"RemoveSMA\":{\"period\":664}}", cmd_string.as_str());
}

#[test]
fn response_serialization() {
    let res_str = "\"Ok\"";
    let res: Response = Response::from_str(res_str).unwrap();
    assert_eq!(res, Response::Okay);
}

#[test]
fn response_deserialization() {
    let res = Response::Okay;
    let res_string = res.to_string().unwrap();
    assert_eq!("\"Ok\"", res_string.as_str());
}

#[test]
fn command_round_trips() {
    let cases = vec![
        Command::Ping,
        Command::Kill,
        Command::Register { channel: "with \"quotes\" and \\slashes\\".to_owned() },
        Command::Ready { instance_type: "Backtester".to_owned(), uuid: Uid::fresh() },
        Command::SpawnTickParser { symbol: "EURUSD".to_owned() },
        Command::KillInstance { uuid: Uid::fresh() },
        Command::StartBacktest { definition: "{\"nested\": true}".to_owned() },
        Command::SpawnSimbroker { settings: SimBrokerSettings { starting_balance: 77 } },
        Command::DownloadTicks {
            start_time: "0".to_owned(),
            end_time: "100".to_owned(),
            symbol: "EURUSD".to_owned(),
            dst: HistTickDst::RedisChannel { host: "h".to_owned(), channel: "c".to_owned() },
        },
        Command::DownloadComplete {
            start_time: "0".to_owned(),
            end_time: "1".to_owned(),
            symbol: "S".to_owned(),
            dst: HistTickDst::Console,
        },
        Command::ListRunningDownloads,
    ];
    for cmd in cases {
        let text = cmd.to_string().unwrap();
        let back = Command::from_str(text.as_str()).unwrap();
        assert_eq!(back, cmd);
    }
}

#[test]
fn response_round_trips() {
    let cases = vec![
        Response::Okay,
        Response::Error { status: "no \"such\" backtest".to_owned() },
        Response::Pong { args: vec!["a".to_owned(), "b\\c".to_owned(), "".to_owned()] },
        Response::Pong { args: vec![] },
        Response::Info { info: "Spawner".to_owned() },
    ];
    for res in cases {
        let text = res.to_string().unwrap();
        let back = Response::from_str(text.as_str()).unwrap();
        assert_eq!(back, res);
    }
}

#[test]
fn wrapped_round_trips() {
    let w = Command::AddSMA { period: 9 }.wrap();
    let text = w.to_string().unwrap();
    let back = algobot::commands::WrappedCommand::from_str(text.as_str()).unwrap();
    assert_eq!(back, w);

    let wr = Response::Info { info: "x".to_owned() }.wrap(Uid::fresh());
    let text2 = wr.to_string().unwrap();
    let back2 = algobot::commands::WrappedResponse::from_str(text2.as_str()).unwrap();
    assert_eq!(back2, wr);
}

#[test]
fn malformed_texts_are_rejected() {
    assert!(Command::from_str("{\"NoSuch\":{\"x\":1}}").is_err());
    assert!(Command::from_str("\"Ping\" trailing").is_err());
    assert!(Response::from_str("").is_err());
}
