//! Command-line options, CSV export and the adapter command protocol.

use tapiti::config::{parse_u64, Args};
use tapiti::logger::{render_csv, CsvRow};
use tapiti::transport::{
    command_text, connect_step, init_sequence, is_prompt_line, ConnectAction, CONNECT_ATTEMPTS,
    MODE21_HEADER_CMD,
};

fn args(list: &[&str]) -> Args {
    Args::parse(&list.iter().map(|s| s.to_string()).collect())
}

#[test]
fn test_args_defaults() {
    let a = args(&[]);
    assert_eq!(a.bt_proxy, "127.0.0.1:35000");
    assert_eq!(a.listen, "127.0.0.1:8080");
    assert_eq!(a.db, "/data/data/com.tapiti.obd/files/tapiti.db");
    assert_eq!(a.poll_ms, 100);
}

#[test]
fn test_args_flags_unknown_and_missing_values() {
    let a = args(&["--listen", "0:1", "-x", "--db", "/tmp/t.db", "--poll-ms", "250", "--bt-proxy"]);
    assert_eq!(a.listen, "0:1");
    assert_eq!(a.db, "/tmp/t.db");
    assert_eq!(a.poll_ms, 250);
    assert_eq!(a.bt_proxy, "127.0.0.1:35000");
    assert_eq!(args(&["--poll-ms", "fast"]).poll_ms, 100);
    assert_eq!(args(&["--poll-ms", "+50"]).poll_ms, 50);
}

#[test]
fn test_parse_u64_matches_std() {
    for s in ["0", "42", "+7", "", "+", "-1", "1a", "18446744073709551615", "18446744073709551616", "007"] {
        assert_eq!(parse_u64(s), s.parse::<u64>().ok(), "input {:?}", s);
    }
}

#[test]
fn test_render_csv_rows() {
    let rows = vec![
        CsvRow { ts_ms: 1000, pid: "rpm".to_string(), value: format!("{}", 1234.0f64), unit: "rpm".to_string() },
        CsvRow { ts_ms: -5, pid: "tps".to_string(), value: format!("{}", 42.5f64), unit: "%".to_string() },
    ];
    assert_eq!(render_csv(&rows), "ts_ms,pid,value,unit\n1000,rpm,1234,rpm\n-5,tps,42.5,%\n");
    assert_eq!(render_csv(&Vec::new()), "ts_ms,pid,value,unit\n");
}

#[test]
fn test_transport_commands() {
    assert_eq!(command_text("ATI"), "ATI\r");
    assert!(is_prompt_line(">\r\n"));
    assert!(!is_prompt_line("41 0C 1A F8\r\n"));
    assert_eq!(
        init_sequence(),
        vec!["ATZ", "ATE0", "ATL0", "ATS0", "ATH0", "ATSP0", "ATAT1", "0100"]
    );
    assert_eq!(MODE21_HEADER_CMD, "AT SH 7E0");
}

#[test]
fn test_connect_step_retries_ten_times_then_gives_up() {
    assert_eq!(connect_step(1, true), ConnectAction::Init);
    assert_eq!(connect_step(10, true), ConnectAction::Init);
    for attempt in 1..CONNECT_ATTEMPTS {
        assert_eq!(
            connect_step(attempt, false),
            ConnectAction::Pause { ms: 1000, retry: true }
        );
    }
    assert_eq!(CONNECT_ATTEMPTS, 10);
    assert_eq!(
        connect_step(CONNECT_ATTEMPTS, false),
        ConnectAction::Pause { ms: 1000, retry: false }
    );
}
