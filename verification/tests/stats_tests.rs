use siren::outbound::MAX_DATAGRAM_SIZE;
use siren::stats::{report_url, stats_url, Stats, StatsRequest};
use siren::stream::ProxyStream;

fn pairs(list: &[(&str, &str)]) -> Vec<(String, String)> {
    list.iter().map(|(a, b)| (a.to_string(), b.to_string())).collect()
}

#[test]
fn report_urls() {
    assert_eq!(report_url(0, 0), "https://do/report?up=0&down=0");
    assert_eq!(report_url(12, u64::MAX), "https://do/report?up=12&down=18446744073709551615");
    assert_eq!(stats_url(), "https://do/stats");
}

#[test]
fn report_reads_back() {
    for (up, down) in [(0, 0), (1, 2), (i64::MAX, 0), (123456789012, 98765)] {
        assert_eq!(
            Stats::fetch(&report_url(up as u64, down as u64)),
            Some(StatsRequest::Report { up, down })
        );
    }
}

#[test]
fn report_of_what_cannot_be_counted() {
    assert_eq!(
        Stats::fetch(&report_url(i64::MAX as u64 + 1, 5)),
        Some(StatsRequest::Report { up: 0, down: 5 })
    );
}

#[test]
fn requests_by_path() {
    assert_eq!(Stats::fetch(stats_url()), Some(StatsRequest::Snapshot));
    assert_eq!(Stats::fetch("https://do/stats?up=1"), Some(StatsRequest::Snapshot));
    assert_eq!(Stats::fetch("https://do/"), Some(StatsRequest::NotFound));
    assert_eq!(Stats::fetch("https://do/stats/"), Some(StatsRequest::NotFound));
    assert_eq!(Stats::fetch("https://do/Report"), Some(StatsRequest::NotFound));
    assert_eq!(Stats::fetch("stats"), None);
    assert_eq!(Stats::fetch("https://do/report"), Some(StatsRequest::Report { up: 0, down: 0 }));
}

#[test]
fn reported_numbers() {
    assert_eq!(
        Stats::report(&pairs(&[("up", "1"), ("down", "-2"), ("up", "3"), ("x", "9")])),
        StatsRequest::Report { up: 3, down: -2 }
    );
    assert_eq!(
        Stats::report(&pairs(&[("up", "1"), ("up", "x"), ("Down", "5")])),
        StatsRequest::Report { up: 0, down: 0 }
    );
}

#[test]
fn query_of_a_report_is_decoded() {
    assert_eq!(
        Stats::fetch("https://do/report?%75p=%31%32&down=%2B7"),
        Some(StatsRequest::Report { up: 12, down: 7 })
    );
}

#[test]
fn dispatch_by_path() {
    assert_eq!(Stats::dispatch("/stats", &Vec::new()), StatsRequest::Snapshot);
    assert_eq!(
        Stats::dispatch("/report", &pairs(&[("down", "4")])),
        StatsRequest::Report { up: 0, down: 4 }
    );
    assert_eq!(Stats::dispatch("", &Vec::new()), StatsRequest::NotFound);
}

#[test]
fn answer_from_a_stored_row() {
    let row = Stats { first_seen: 1_000, up_bytes: 7, down_bytes: -8 };
    assert_eq!(
        Stats::get_stats(&vec![row], 5_999),
        "{\"down_bytes\":-8,\"first_seen\":1000,\"up_bytes\":7,\"uptime_seconds\":4}"
    );
}

#[test]
fn answer_without_a_row() {
    assert_eq!(
        Stats::get_stats(&Vec::new(), 42),
        "{\"down_bytes\":0,\"first_seen\":42,\"up_bytes\":0,\"uptime_seconds\":0}"
    );
}

#[test]
fn uptime_is_rounded_down_and_never_negative() {
    let at = |first_seen: i64, now: i64| {
        let row = Stats { first_seen, up_bytes: 0, down_bytes: 0 };
        let body = Stats::get_stats(&vec![row], now);
        match body.rsplit_once(':') {
            Some((_, t)) => t.trim_end_matches('}').to_string(),
            None => panic!("no uptime in {}", body),
        }
    };
    assert_eq!(at(0, 999), "0");
    assert_eq!(at(0, 1000), "1");
    assert_eq!(at(-500, 500), "1");
    assert_eq!(at(2000, 0), "0");
    assert_eq!(at(0, i64::MAX), "9223372036854775");
    assert_eq!(at(0, i64::MIN), "0");
}

#[test]
fn numbers_at_the_limits() {
    let row = Stats { first_seen: 0, up_bytes: i64::MAX, down_bytes: i64::MIN };
    assert_eq!(
        Stats::get_stats(&vec![row], 0),
        "{\"down_bytes\":-9223372036854775808,\"first_seen\":0,\"up_bytes\":9223372036854775807,\"uptime_seconds\":0}"
    );
}

#[test]
fn relay_is_reported_where_it_did_not_fail() {
    let (url, outcome) = ProxyStream::relay(Ok((3, 4)));
    assert_eq!(url, Some("https://do/report?up=3&down=4".to_string()));
    assert_eq!(outcome, Ok(()));
    let (url, outcome) = ProxyStream::relay(Err("reset".to_string()));
    assert_eq!(url, None);
    assert_eq!(outcome, Err("reset".to_string()));
}

#[test]
fn datagram_is_cut_to_what_was_read() {
    let mut buff = vec![0u8; MAX_DATAGRAM_SIZE];
    buff[0] = 1;
    buff[1] = 2;
    assert_eq!(ProxyStream::handle_udp_outbound(buff.clone(), 2), vec![1, 2]);
    assert_eq!(ProxyStream::handle_udp_outbound(buff.clone(), 0), Vec::<u8>::new());
    assert_eq!(ProxyStream::handle_udp_outbound(buff, 65535).len(), 65535);
}
