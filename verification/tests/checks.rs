use opncheck::agent::output::AgentOutput;
use opncheck::checks::dhcp::{lease_ips, lease_ips_of_matches, write_leases};
use opncheck::checks::firmware::{firmware_output, FirmwareError};
use opncheck::checks::gateway::{write_gateway, GatewayStatus};
use opncheck::checks::kea::{
    kea_pools, pool_stats, stat_item_of_groups, write_pool, KeaError, KeaResponseItem, KeaSample, KeaStatistic, PoolStats,
    StatItem,
};
use opncheck::text::{u64_parse_error, NumberError};
use opncheck::checks::meta::status::{self, CheckError};
use opncheck::checks::meta::timings::{self, metric_key_suffix, CheckTiming};
use opncheck::checks::meta::version::{self, UpdateOutcome};
use opncheck::checks::opnsense::unbound::{stat_value, unbound_section, unbound_stats};
use opncheck::checks::opnsense::{
    nginx_status_ok, pidof, split_http_response, write_ipsec, write_nginx_local, write_pkgaudit_local,
    write_services_local, write_unbound_local, write_wireguard_local, AuditReport, IpsecConnection, NginxBody,
};
use opncheck::checks::wireguard::{
    classify_peer, parse_peer, peer_from_groups, wireguard_section, wireguard_section_checked, write_peer,
};
use opncheck::checks::CheckReport;
use opncheck::config::Config;
use opncheck::opnsense::config_xml::enabled::{EnabledFlag, MvcGeneral};
use opncheck::opnsense::config_xml::wireguard::{WireguardClientHolder, WireguardPeer, WireguardPeers, WireguardSection};
use opncheck::opnsense::config_xml::{OPNsenseSection, OpnsenseConfig};
use opncheck::plugin::output::{collect_sections, LocalSection, LocalState};

fn text(out: AgentOutput) -> String {
    out.finish()
}

fn wg_config() -> OpnsenseConfig {
    OpnsenseConfig {
        unbound: None,
        opnsense: Some(OPNsenseSection {
            gateways: None,
            haproxy: None,
            nginx: None,
            unboundplus: None,
            wireguard: Some(WireguardSection {
                general: MvcGeneral { enabled: EnabledFlag::from_text(Some("1")) },
                client: WireguardClientHolder {
                    clients: WireguardPeers {
                        peers: vec![WireguardPeer {
                            enabled: EnabledFlag::from_text(Some("1")),
                            name: Some("laptop".to_string()),
                            pubkey: Some("ABC=".to_string()),
                        }],
                    },
                },
            }),
        }),
    }
}

#[test]
fn wireguard_dump_lines_become_rows() {
    let dump = "wg0\tPRIV\tPUB\t51820\toff\n\
                wg0\tABC=\t(none)\t203.0.113.5:4500\t10.0.0.2/32\t1000\t11\t22\toff\n\
                wg0\tDEF=\t(none)\t(none)\t10.0.0.3/32\t0\t0\t0\toff\n";
    let section = wireguard_section(&Config::default(), &wg_config(), dump, 1100);
    assert_eq!(
        section.to_string(),
        "<<<local:sep(0)>>>\n\
         0 \"WireGuard: laptop\" if_in_octets=11|if_out_octets=22|latest_handshake_age=100 wg0: 203.0.113.5:4500\n\
         2 \"WireGuard: DEF=\" if_in_octets=0|if_out_octets=0|latest_handshake_age=0 wg0: (none) (never connected)"
    );
}

#[test]
fn wireguard_skips_blank_dumps() {
    assert_eq!(wireguard_section(&Config::default(), &wg_config(), "  \n", 5).rows.len(), 0);
}

#[test]
fn wireguard_ages_against_limits() {
    assert_eq!(classify_peer(0, 100, 300, 900), (LocalState::Crit, 0, " (never connected)"));
    assert_eq!(classify_peer(100, 50, 300, 900), (LocalState::Okay, 0, ""));
    assert_eq!(classify_peer(100, 500, 300, 900), (LocalState::Warn, 400, ""));
    assert_eq!(classify_peer(100, 1001, 300, 900), (LocalState::Crit, 901, ""));
}

#[test]
fn wireguard_peer_numbers_must_fit() {
    assert!(parse_peer("a\tb\tc\td\te\t1\t99999999999999999999\t3\tf").is_none());
    let p = parse_peer("a\tb\tc\td\te\t-5\t+2\t3\tf").unwrap();
    assert_eq!(p.latest_handshake, -5);
    assert_eq!(p.received, 2);
    assert!(parse_peer("too\tfew").is_none());
}

#[test]
fn wireguard_peer_from_match_groups() {
    let groups = |v: &[&str]| v.iter().map(|g| Some(g.to_string())).collect::<Vec<_>>();
    let g = groups(&["whole", "wg1", "KEY=", "(none)", "198.51.100.7:51820", "10.0.0.9/32", "50", "7", "8", "25"]);
    let p = peer_from_groups(&g).unwrap();
    assert_eq!((p.interface.as_str(), p.public_key.as_str(), p.endpoint.as_str()), ("wg1", "KEY=", "198.51.100.7:51820"));
    assert_eq!((p.latest_handshake, p.received, p.sent), (50, 7, 8));
    let mut missing = g.clone();
    missing[9] = None;
    assert!(peer_from_groups(&missing).is_none());
    assert!(peer_from_groups(&g[..9].to_vec()).is_none());
    let mut bad = g.clone();
    bad[6] = Some("9223372036854775808".to_string());
    assert!(peer_from_groups(&bad).is_none());

    let mut out = LocalSection::new();
    write_peer(&mut out, &p, 400, 300, 900, &wg_config());
    assert_eq!(
        out.to_string(),
        "<<<local:sep(0)>>>\n1 \"WireGuard: KEY=\" if_in_octets=7|if_out_octets=8|latest_handshake_age=350 wg1: 198.51.100.7:51820"
    );
}

#[test]
fn wireguard_overflowing_age_is_reported() {
    let dump = "wg0\tK\tx\te\ta\t-9223372036854775808\t1\t1\toff";
    assert!(wireguard_section_checked(&Config::default(), &wg_config(), dump, 10).is_none());
    assert!(wireguard_section_checked(&Config::default(), &wg_config(), dump, -10).is_some());
}

#[test]
fn firmware_reports_version_and_updates() {
    let out = firmware_output(
        "Currently running OPNsense 24.7.1 (amd64)\nChecking for upgrades (3 candidates): done\n",
    )
    .unwrap();
    assert_eq!(
        text(out),
        "<<<local:sep(0)>>>\n1 \"OPNsense Firmware\" updates=3 Version 24.7.1, 3 update(s) available\n"
    );
    let out = firmware_output("Currently running OPNsense 25.1\nChecking for upgrades (0 candidates): ok").unwrap();
    assert_eq!(text(out), "<<<local:sep(0)>>>\n0 \"OPNsense Firmware\" updates=0 Version 25.1, up to date\n");
}

#[test]
fn firmware_errors() {
    assert!(matches!(firmware_output("nothing"), Err(FirmwareError::NoVersion)));
    assert!(matches!(
        firmware_output("Currently running OPNsense 25.1"),
        Err(FirmwareError::NoUpdateCount)
    ));
    assert_eq!(FirmwareError::NoVersion.message(), "could not parse current OPNsense version");
}

#[test]
fn firmware_upgrade_line_format() {
    let report = |line: &str| firmware_output(&format!("Currently running OPNsense 25.1\n{line}"));
    let count = |line: &str| report(line).ok().map(|out| text(out));
    assert!(count("Checking for upgrades (+2 candidates): x").unwrap().contains("updates=2 "));
    assert!(count("Checking for upgrades (00000000000000000007 candidates): x").unwrap().contains("updates=7 "));
    assert!(matches!(report("Checking for upgrades (000000000000000000007 candidates): x"), Err(FirmwareError::NoUpdateCount)));
    assert!(matches!(report("Checking for upgrades (18446744073709551616 candidates): x"), Err(FirmwareError::NoUpdateCount)));
    assert!(matches!(report("Checking for upgrades (3 candidates): "), Err(FirmwareError::NoUpdateCount)));
    assert!(matches!(report("Checking for upgrades (-3 candidates): x"), Err(FirmwareError::NoUpdateCount)));
    assert!(matches!(report("Checking for upgrades ( 3 candidates): x"), Err(FirmwareError::NoUpdateCount)));
    let last = firmware_output(
        "Checking for upgrades (1 candidates): a\nCurrently running OPNsense 24.1 x\nChecking for upgrades (4 candidates): b c\nnoise",
    )
    .unwrap();
    assert_eq!(text(last), "<<<local:sep(0)>>>\n1 \"OPNsense Firmware\" updates=4 Version 24.1, 4 update(s) available\n");
}

#[test]
fn unbound_statistics_last_value_wins() {
    let stats = unbound_stats("total.num.queries=5\nthread0.num.queries=1\ntotal.num.queries=7\nnoise\n");
    assert_eq!(stats.len(), 2);
    assert_eq!(stat_value(&stats, "num_queries"), "7");
    assert_eq!(stat_value(&stats, "num_cachehits"), "0");
}

#[test]
fn unbound_sections() {
    let cfg = wg_config();
    let s = unbound_section(&cfg, true, "total.num.queries=9\ntotal.recursion.time.avg=0.5\n");
    assert_eq!(
        s.to_string(),
        "<<<local:sep(0)>>>\n0 \"Unbound DNS\" dns_successes=9|dns_recursion=0|dns_cachehits=0|dns_cachemiss=0|avg_response_time=0.5 Unbound running"
    );
    let s = unbound_section(&cfg, true, "");
    assert_eq!(
        s.to_string(),
        "<<<local:sep(0)>>>\n2 \"Unbound DNS\" dns_successes=0|dns_recursion=0|dns_cachehits=0|dns_cachemiss=0|avg_response_time=0 Unbound not running"
    );
    assert_eq!(unbound_section(&cfg, false, "x").to_string(), "");
    let mut out = AgentOutput::new();
    write_unbound_local(&mut out, "total.num.cachehits=4");
    assert_eq!(
        text(out),
        "<<<local:sep(0)>>>\n0 \"Unbound DNS\" dns_successes=0|dns_recursion=0|dns_cachehits=4|dns_cachemiss=0|avg_response_time=0 Unbound running\n"
    );
}

#[test]
fn dhcp_active_leases_sorted_once() {
    let leases = "lease 10.0.0.9 {\n  binding state active;\n}\nlease 10.0.0.2 {\n binding state active;\n}\nlease 10.0.0.9 {\n binding state active;\n}\nlease 10.0.0.10 {\n  binding state free;\n}\n";
    assert_eq!(lease_ips(leases).unwrap(), vec!["10.0.0.2".to_string(), "10.0.0.9".to_string()]);
    let found = vec![Some("10.1.0.1".to_string()), None, Some("10.0.0.20".to_string()), Some("10.1.0.1".to_string())];
    assert_eq!(lease_ips_of_matches(&found), vec!["10.0.0.20".to_string(), "10.1.0.1".to_string()]);
    let mut out = AgentOutput::new();
    write_leases(&mut out, -1, leases);
    assert_eq!(text(out), "<<<isc_dhcpd>>>\n[general]\nPID: -1\n[leases]\n10.0.0.2\n10.0.0.9\n");
}

fn stat(name: &str, value: u64) -> KeaStatistic {
    KeaStatistic { name: name.to_string(), samples: vec![KeaSample { unsigned: Some(value), signed: None }] }
}

#[test]
fn kea_pools_in_order_with_both_counts() {
    let stats = vec![
        stat("subnet[2].pool[0].assigned-addresses", 5),
        stat("subnet[2].pool[0].total-addresses", 10),
        stat("subnet[1].pool[3].total-addresses", 100),
        stat("subnet[1].pool[3].assigned-addresses", 1),
        stat("subnet[7].pool[0].assigned-addresses", 1),
        stat("subnet[1].total-addresses", 1),
    ];
    let pools = pool_stats(&stats).unwrap();
    assert_eq!(
        pools,
        vec![
            PoolStats { subnet: 1, pool: 3, assigned: 1, total: 100 },
            PoolStats { subnet: 2, pool: 0, assigned: 5, total: 10 },
        ]
    );
    let mut out = AgentOutput::new();
    write_pool(&mut out, &pools[0], "1.00");
    assert_eq!(
        text(out),
        "0 \"Kea DHCP Pool subnet 1 pool 3\" used=1|total=100|free=99|usage=1.00% 1/100 addresses used (1.00%)\n"
    );
}

#[test]
fn kea_errors() {
    let bad = vec![KeaStatistic { name: "subnet[1].pool[0].total-addresses".to_string(), samples: vec![] }];
    assert!(matches!(pool_stats(&bad), Err(KeaError::NoSample { .. })));
    let big = vec![stat("subnet[99999999999999999999].pool[0].total-addresses", 1)];
    assert!(matches!(pool_stats(&big), Err(KeaError::BadNumber { .. })));
    assert!(matches!(kea_pools(&vec![]), Err(KeaError::EmptyResponse)));
    let failed = vec![KeaResponseItem { result: 1, text: Some("nope".to_string()), arguments: vec![] }];
    assert!(matches!(kea_pools(&failed), Err(KeaError::Failed { result: 1, .. })));
    assert_eq!(
        kea_pools(&failed).err().map(|e| e.message()),
        Some("Kea Control Agent statistic-get-all failed with result 1: nope".to_string())
    );
    let silent = KeaError::Failed { result: -3, text: None };
    assert_eq!(silent.message(), "Kea Control Agent statistic-get-all failed with result -3: no response text");
    assert_eq!(KeaError::EmptyResponse.message(), "Kea Control Agent returned an empty response");
    assert_eq!(pool_stats(&big).err().map(|e| e.message()), Some("number too large to fit in target type".to_string()));
    assert_eq!(
        pool_stats(&bad).err().map(|e| e.message()),
        Some("Kea statistic subnet[1].pool[0].total-addresses has no numeric sample".to_string())
    );
    let groups = |g: &[&str]| Some(g.iter().map(|x| Some(x.to_string())).collect::<Vec<_>>());
    let one = vec![KeaSample { unsigned: Some(9), signed: None }];
    assert!(matches!(
        stat_item_of_groups(&groups(&["n", "\u{663}", "99999999999999999999", "total-addresses"]), &one),
        StatItem::BadNumber { error: NumberError::InvalidDigit }
    ));
    assert!(matches!(
        stat_item_of_groups(&groups(&["n", "1", "99999999999999999999", "total-addresses"]), &one),
        StatItem::BadNumber { error: NumberError::TooLarge }
    ));
    assert!(matches!(
        stat_item_of_groups(&groups(&["n", "4", "2", "assigned-addresses"]), &one),
        StatItem::Count { key: (4, 2), assigned: true, value: 9 }
    ));
    assert!(matches!(stat_item_of_groups(&None, &one), StatItem::Skip));
    assert!(matches!(stat_item_of_groups(&groups(&["n", "4", "2", "other"]), &one), StatItem::Skip));
    assert!(matches!(stat_item_of_groups(&groups(&["n", "4", "2", "total-addresses"]), &vec![]), StatItem::NoSample));
    let unicode = KeaError::BadNumber { name: "x".to_string(), error: NumberError::InvalidDigit };
    assert_eq!(unicode.message(), "invalid digit found in string");
    let negative = KeaSample { unsigned: None, signed: Some(-1) };
    assert_eq!(negative.as_u64(), None);
    assert_eq!(KeaSample { unsigned: None, signed: Some(4) }.as_u64(), Some(4));
}

#[test]
fn gateway_rows_and_states() {
    assert_eq!(GatewayStatus::from_code("none"), GatewayStatus::Online);
    assert_eq!(GatewayStatus::from_code("delay+loss"), GatewayStatus::LatencyAndPacketLoss);
    assert_eq!(GatewayStatus::from_code("weird"), GatewayStatus::Pending);
    assert_eq!(LocalState::from(GatewayStatus::OfflineForced), LocalState::Warn);
    assert_eq!(LocalState::from(GatewayStatus::Offline), LocalState::Crit);
    assert_eq!(LocalState::from(GatewayStatus::Pending), LocalState::Unknown);
    let mut s = LocalSection::new();
    write_gateway(&mut s, "WAN", GatewayStatus::Latency, "192.0.2.1", "12.5", "0.3", "0.0 %");
    assert_eq!(
        s.to_string(),
        "<<<local:sep(0)>>>\n1 \"Gateway WAN\" rtt=12.5ms|rttsd=0.3ms|loss=0.0 % Latency -> 192.0.2.1, RTT 12.5ms"
    );
}

#[test]
fn meta_sections() {
    let timings = vec![
        CheckTiming { section: "wire-guard".to_string(), elapsed_nanos: 11_000_000_000, elapsed_text: "11000.000ms".to_string() },
    ];
    assert_eq!(metric_key_suffix("wire-guard.x_1"), "wire_guard_x_1");
    assert_eq!(
        timings::section(&timings, "11000.000ms").to_string(),
        "<<<local:sep(0)>>>\n1 \"OPNCheck Timings\" wire_guard_took=11000.000ms Checks completed in 11000.000ms"
    );
    assert_eq!(
        status::section(&vec![]).to_string(),
        "<<<local:sep(0)>>>\n0 \"OPNCheck Status\" status=ok All checks completed successfully"
    );
    let errors = vec![CheckError { section: "kea".to_string(), error: "boom".to_string(), elapsed_text: "1.000ms".to_string() }];
    assert_eq!(
        status::section(&errors).to_string(),
        "<<<local:sep(0)>>>\n2 \"OPNCheck Status\" status=err Errors occurred during some checks: \\nkea: boom (after 1.000ms)"
    );
    let v = version::section(&Ok(UpdateOutcome::NotDue), "1.2.3", &None);
    assert_eq!(
        v.to_string(),
        "<<<local:sep(0)>>>\n0 \"OPNCheck Version\" status=ok Up to date (1.2.3), Next check disabled"
    );
    let v = version::section(&Err("no network".to_string()), "1.2.3", &Some("in 5h".to_string()));
    assert_eq!(v.to_string(), "<<<local:sep(0)>>>\n2 \"OPNCheck Version\" status=err Auto-update failed: no network");
}

fn report_timings() -> Vec<CheckTiming> {
    vec![
        CheckTiming { section: "a".to_string(), elapsed_nanos: 1, elapsed_text: "0.000ms".to_string() },
        CheckTiming { section: "b".to_string(), elapsed_nanos: 2, elapsed_text: "0.000ms".to_string() },
    ]
}

#[test]
fn check_report_orders_sections() {
    let mut report = CheckReport::new();
    report.record("a", 1, "0.000ms", Ok(LocalSection::new().to_string()));
    report.record("b", 2, "0.000ms", Err("bad".to_string()));
    let version = version::section(&Ok(UpdateOutcome::Disabled), "9", &None);
    let all = report.finish("0.000ms", &version);
    assert_eq!(all, collect_sections(vec![
        LocalSection::new(),
        timings::section(&report_timings(), "0.000ms"),
        status::section(&vec![CheckError { section: "b".to_string(), error: "bad".to_string(), elapsed_text: "0.000ms".to_string() }]),
        version::section(&Ok(UpdateOutcome::Disabled), "9", &None),
    ]));
    assert!(all.starts_with("\n<<<local:sep(0)>>>\n0 \"OPNCheck Timings\" a_took=0.000ms|b_took=0.000ms"));
    assert!(all.contains("b: bad (after 0.000ms)"));
    assert!(all.ends_with("status=disabled Up to date (9), Next check disabled\n"));
}

#[test]
fn pidof_and_http() {
    assert_eq!(pidof("COMMAND PID\nsshd 12\ndhcpd x\ndhcpd 44\n", "dhcpd"), Some(44));
    assert_eq!(pidof("dhcpd 1 2\n", "dhcpd"), None);
    let (status, body) = split_http_response("HTTP/1.1 200 OK\r\nA: b\r\n\r\n{\"x\":1}");
    assert_eq!(status, Some(200));
    assert_eq!(body, "{\"x\":1}");
    let (status, body) = split_http_response("{}");
    assert_eq!(status, None);
    assert_eq!(body, "{}");
    assert!(nginx_status_ok(None));
    assert!(!nginx_status_ok(Some(404)));
    let mut out = AgentOutput::new();
    write_nginx_local(&mut out, NginxBody::Uptime("42".to_string()));
    assert_eq!(text(out), "<<<local:sep(0)>>>\n0 \"Nginx Uptime\" uptime=42 Nginx VTS status socket responding\n");
}

#[test]
fn ipsec_and_wireguard_local_rows() {
    let mut out = AgentOutput::new();
    write_ipsec(
        &mut out,
        &Some(vec![
            IpsecConnection { name: "site".to_string(), sa_states: vec![None, Some("ESTABLISHED".to_string())] },
            IpsecConnection { name: "down".to_string(), sa_states: vec![] },
        ]),
    );
    assert_eq!(
        text(out),
        "<<<local:sep(0)>>>\n0 \"IPsec Tunnel: site\" if_in_octets=0|if_out_octets=0|lifetime=0 ESTABLISHED\n2 \"IPsec Tunnel: down\" if_in_octets=0|if_out_octets=0|lifetime=0 not connected\n"
    );
    let mut out = AgentOutput::new();
    write_wireguard_local(&mut out, "wg0\tPRIV\tPUB\t51820\toff\nwg0\tK\tx\t1.2.3.4:5\ta\t1\t7\t8\toff\n");
    assert_eq!(text(out), "<<<local:sep(0)>>>\n0 \"WireGuard Client: K\" if_in_octets=7|if_out_octets=8 wg0: 1.2.3.4:5\n");
}

#[test]
fn package_audit_and_services_rows() {
    let mut out = AgentOutput::new();
    write_pkgaudit_local(&mut out, "Audit", &None);
    assert_eq!(text(out), "<<<local:sep(0)>>>\n0 \"Audit\" issues=0 OK\n");
    let mut out = AgentOutput::new();
    let report = AuditReport { pkg_count: Some(2), packages: Some(vec!["curl".to_string(), "openssl".to_string()]) };
    write_pkgaudit_local(&mut out, "OPNsense Package Audit", &Some(report));
    assert_eq!(text(out), "<<<local:sep(0)>>>\n1 \"OPNsense Package Audit\" issues=2 Pkg: curl, openssl vulnerable\n");
    let mut out = AgentOutput::new();
    write_services_local(&mut out, &Config::default(), "dhcpd;DHCP;1\nntpd;NTP;0\niperf;Perf;0\nbad line\n");
    assert_eq!(
        text(out),
        "<<<local:sep(0)>>>\n2 \"OPNsense Services\" running_services=1|stopped_service=1 Services: NTP not running\n"
    );
}

#[test]
fn unsigned_parse_errors_follow_std() {
    let chars = |s: &str| s.chars().collect::<Vec<char>>();
    for text in ["", "+", "-", "-1", "12a", "1 2", "+5", "18446744073709551615", "18446744073709551616", "99999999999999999999x", "\u{663}"] {
        let expected = text.parse::<u64>().err().map(|e| e.to_string());
        assert_eq!(u64_parse_error(&chars(text)).map(|e| e.message().to_string()), expected, "{text:?}");
    }
    assert_eq!(u64_parse_error(&chars("")), Some(NumberError::Empty));
}
