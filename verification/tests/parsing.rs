use qscan::ip::Ip;
use qscan::ports::ports_parse;
use qscan::report::{live_line, print_mode_of_level, summary_lines, PrintMode};
use qscan::report::{ip_to_string, outcome_to_string, task_to_string};
use qscan::resolve::{addresses_parse, resolve_tokens, TokenResult};
use qscan::scanner::QScanner;
use qscan::{ConfigError, PortState, ScanOutcome, ScanTask};

fn v4(a: u8, b: u8, c: u8, d: u8) -> Ip {
    Ip::v4_from_octets(a, b, c, d)
}

#[test]
fn parse_single_port() {
    let res = ports_parse("80").unwrap();
    assert_eq!(res, vec![80]);
}

#[test]
fn parse_multiple_ports() {
    let res = ports_parse("80, 443,8080").unwrap();
    assert_eq!(res, vec![80, 443, 8080]);
}

#[test]
fn parse_ports_range() {
    let res = ports_parse("80-83").unwrap();
    assert_eq!(res, vec![80, 81, 82, 83]);
}

#[test]
fn parse_ports_mixed() {
    let res = ports_parse("21,80-83,443,8080-8081").unwrap();
    assert_eq!(res, vec![21, 80, 81, 82, 83, 443, 8080, 8081]);
}

#[test]
fn parse_ports_descending_range_is_error() {
    assert_eq!(ports_parse("90-80"), Err(ConfigError::MalformedPortSpec));
}

#[test]
fn parse_ports_non_numeric_is_error() {
    assert_eq!(ports_parse("abc"), Err(ConfigError::MalformedPortSpec));
    assert_eq!(ports_parse(""), Err(ConfigError::MalformedPortSpec));
    assert_eq!(ports_parse("80,"), Err(ConfigError::MalformedPortSpec));
}

#[test]
fn parse_ports_too_many_fields_is_error() {
    assert_eq!(ports_parse("1-2-3"), Err(ConfigError::MalformedPortSpec));
}

#[test]
fn parse_ports_out_of_range_is_error() {
    assert_eq!(ports_parse("70000"), Err(ConfigError::MalformedPortSpec));
    assert_eq!(ports_parse("65535").unwrap(), vec![65535]);
}

#[test]
fn parse_simple_address() {
    let res = addresses_parse("127.0.0.1");
    assert_eq!(res, vec![v4(127, 0, 0, 1)]);
}

#[test]
fn parse_multiple_addresses() {
    let res = addresses_parse("127.0.0.1,127.0.0.2");
    assert_eq!(res, vec![v4(127, 0, 0, 1), v4(127, 0, 0, 2)]);
}

#[test]
fn parse_cidr() {
    let res = addresses_parse("127.0.0.10/31");
    assert_eq!(res, vec![v4(127, 0, 0, 10), v4(127, 0, 0, 11)]);
}

#[test]
fn parse_cidr_and_addresses() {
    let res = addresses_parse("127.0.0.1,127.0.0.10/31, 127.0.0.2");
    assert_eq!(
        res,
        vec![v4(127, 0, 0, 1), v4(127, 0, 0, 10), v4(127, 0, 0, 11), v4(127, 0, 0, 2)]
    );
}

#[test]
fn parse_cidr_24_has_256_addresses() {
    let res = addresses_parse("10.1.2.0/24");
    assert_eq!(res.len(), 256);
    assert_eq!(res[0], v4(10, 1, 2, 0));
    assert_eq!(res[255], v4(10, 1, 2, 255));
}

#[test]
fn parse_v6_literal() {
    let res = addresses_parse("::1");
    assert_eq!(res, vec![Ip::V6(1)]);
}

#[test]
fn hostname_token_is_left_for_the_resolution_chain() {
    let res = resolve_tokens("127.0.0.1,localhost");
    assert_eq!(res.len(), 2);
    assert_eq!(res[0], TokenResult::Resolved(vec![v4(127, 0, 0, 1)]));
    assert_eq!(res[1], TokenResult::Unknown(b"localhost".to_vec()));
}

#[test]
fn scanner_new_rejects_bad_config() {
    assert!(matches!(
        QScanner::new("127.0.0.1", "80", 0, 1000, 1),
        Err(ConfigError::ZeroBatch)
    ));
    assert!(matches!(
        QScanner::new("127.0.0.1", "80", 1000, 1000, 0),
        Err(ConfigError::ZeroTries)
    ));
    assert!(matches!(
        QScanner::new("127.0.0.1", "90-80", 1000, 1000, 1),
        Err(ConfigError::MalformedPortSpec)
    ));
}

#[test]
fn scanner_new_accepts_config() {
    let s = QScanner::new("127.0.0.1,127.0.0.10/31", "80,443", 1000, 1500, 3).unwrap();
    assert_eq!(s.ips(), &vec![v4(127, 0, 0, 1), v4(127, 0, 0, 10), v4(127, 0, 0, 11)]);
    assert_eq!(s.ports(), &vec![80, 443]);
    assert_eq!(s.batch(), 1000);
    assert_eq!(s.timeout_ms(), 1500);
    assert_eq!(s.tries(), 3);
}

#[test]
fn print_levels_map_to_modes() {
    assert_eq!(print_mode_of_level(0), Ok(PrintMode::Suppressed));
    assert_eq!(print_mode_of_level(1), Ok(PrintMode::SummaryOpen));
    assert_eq!(print_mode_of_level(2), Ok(PrintMode::SummaryAll));
    assert_eq!(print_mode_of_level(3), Ok(PrintMode::LiveOpen));
    assert_eq!(print_mode_of_level(4), Ok(PrintMode::LiveAll));
    assert_eq!(print_mode_of_level(5), Err(ConfigError::InvalidPrintLevel));
}

#[test]
fn formats_addresses_and_targets() {
    assert_eq!(ip_to_string(&v4(127, 0, 0, 1)), "127.0.0.1");
    assert_eq!(ip_to_string(&v4(8, 8, 8, 8)), "8.8.8.8");
    assert_eq!(
        ip_to_string(&Ip::V6(1)),
        "0000:0000:0000:0000:0000:0000:0000:0001"
    );
    let t = ScanTask { ip: v4(8, 8, 8, 8), port: 53 };
    assert_eq!(task_to_string(&t), "8.8.8.8:53");
    let t6 = ScanTask { ip: Ip::V6(0x20010db8_00000000_00000000_00000001), port: 443 };
    assert_eq!(
        task_to_string(&t6),
        "[2001:0db8:0000:0000:0000:0000:0000:0001]:443"
    );
    let o = ScanOutcome { task: t, state: PortState::Closed };
    assert_eq!(outcome_to_string(&o), "8.8.8.8:53:CLOSED");
}

#[test]
fn live_lines_follow_the_mode() {
    let open = ScanOutcome {
        task: ScanTask { ip: v4(127, 0, 0, 1), port: 80 },
        state: PortState::Open,
    };
    let closed = ScanOutcome {
        task: ScanTask { ip: v4(127, 0, 0, 1), port: 81 },
        state: PortState::Closed,
    };
    assert_eq!(live_line(PrintMode::Suppressed, &open), None);
    assert_eq!(live_line(PrintMode::SummaryOpen, &open), None);
    assert_eq!(live_line(PrintMode::SummaryAll, &open), None);
    assert_eq!(live_line(PrintMode::LiveOpen, &open), Some("127.0.0.1:80".to_string()));
    assert_eq!(live_line(PrintMode::LiveOpen, &closed), None);
    assert_eq!(live_line(PrintMode::LiveAll, &open), Some("127.0.0.1:80:OPEN".to_string()));
    assert_eq!(
        live_line(PrintMode::LiveAll, &closed),
        Some("127.0.0.1:81:CLOSED".to_string())
    );
}

#[test]
fn summary_lines_follow_the_mode() {
    let outcomes = vec![
        ScanOutcome { task: ScanTask { ip: v4(127, 0, 0, 1), port: 80 }, state: PortState::Open },
        ScanOutcome {
            task: ScanTask { ip: v4(127, 0, 0, 1), port: 81 },
            state: PortState::Closed,
        },
        ScanOutcome { task: ScanTask { ip: v4(127, 0, 0, 2), port: 80 }, state: PortState::Open },
    ];
    assert_eq!(summary_lines(PrintMode::Suppressed, &outcomes), Vec::<String>::new());
    assert_eq!(summary_lines(PrintMode::LiveOpen, &outcomes), Vec::<String>::new());
    assert_eq!(
        summary_lines(PrintMode::SummaryOpen, &outcomes),
        vec!["127.0.0.1:80".to_string(), "127.0.0.2:80".to_string()]
    );
    assert_eq!(
        summary_lines(PrintMode::SummaryAll, &outcomes),
        vec![
            "127.0.0.1:80:OPEN".to_string(),
            "127.0.0.1:81:CLOSED".to_string(),
            "127.0.0.2:80:OPEN".to_string()
        ]
    );
}
