use lookup_sorter::{
    process_all, sites_from_lines, subnets_from_lines, HostOutcome, IpAddress, Site, Stage, Step,
    Subnet, Verdict,
};
use reqwest::header::{HeaderMap, HeaderValue};

fn lines(text: &str) -> Vec<String> {
    text.split('\n').map(|l| l.to_string()).collect()
}

fn headers_with_server(value: &'static str) -> HeaderMap {
    let mut h = HeaderMap::new();
    h.insert("server", HeaderValue::from_static(value));
    h.insert("content-length", HeaderValue::from_static("0"));
    h
}

#[test]
fn test_build_sites() {
    let result = sites_from_lines(&lines("google.com\nasfasdf.asdf\nyahoo.com"));
    assert_eq!(result.len(), 3);
    assert_eq!("google.com", result[0].host);
    assert_eq!("asfasdf.asdf", result[1].host);
    assert_eq!("yahoo.com", result[2].host);
}

#[test]
fn sites_are_trimmed_and_blank_lines_skipped() {
    let result = sites_from_lines(&lines("  a.example \n\n\t\n\tb.example\r\n   "));
    assert_eq!(result.len(), 2);
    assert_eq!(result[0].host, "a.example");
    assert_eq!(result[1].host, "b.example");
    for site in &result {
        assert!(site.addrs.is_empty());
        assert!(site.headers.is_empty());
        assert_eq!(site.bigip, Verdict::NotDetected);
        assert_eq!(site.stage, Stage::Created);
    }
}

#[test]
fn new_site_for_blank_line_is_none() {
    assert!(Site::new("   ").is_none());
    assert!(Site::new("").is_none());
    assert_eq!(Site::new(" host.example\t").unwrap().host, "host.example");
}

#[test]
fn subnets_skip_bad_lines() {
    let table = subnets_from_lines(&lines("192.168.0.0/24\nbogus\n10.0.0.0/8\n1.2.3.4/40"));
    assert_eq!(
        table,
        vec![
            Subnet { addr: 0xc0a8_0000, prefix_len: 24 },
            Subnet { addr: 0x0a00_0000, prefix_len: 8 },
        ]
    );
}

#[test]
fn steps_follow_the_stages() {
    let mut site = Site::new("h.example").unwrap();
    assert_eq!(site.next_step(), Step::Resolve);
    site.apply_resolution(None);
    assert_eq!(site.next_step(), Step::Probe);
    site.apply_probe(None);
    assert_eq!(site.next_step(), Step::Classify);
    site.classify(&[]);
    assert_eq!(site.next_step(), Step::Done);
    assert_eq!(site.bigip, Verdict::NotDetected);
}

#[test]
fn resolution_keeps_resolver_order() {
    let mut site = Site::new("h.example").unwrap();
    let addrs = vec![IpAddress::v4(10, 0, 0, 2), IpAddress::v6(7), IpAddress::v4(10, 0, 0, 2)];
    site.apply_resolution(Some(addrs.clone()));
    assert_eq!(site.addrs, addrs);
}

#[test]
fn header_verdict_wins_over_subnet() {
    let subnets: Vec<Subnet> = vec!["192.168.0.0/24".parse().unwrap()];
    let mut site = Site::new("h.example").unwrap();
    site.apply_resolution(Some(vec![IpAddress::v4(192, 168, 0, 9)]));
    site.apply_probe(Some(headers_with_server("BigIP")));
    site.classify(&subnets);
    assert_eq!(site.bigip, Verdict::BigIPByHeader);
}

#[test]
fn header_verdict_is_not_overwritten_by_a_subnet_miss() {
    let mut site = Site::new("h.example").unwrap();
    site.apply_resolution(Some(vec![IpAddress::v4(8, 8, 8, 8)]));
    site.apply_probe(Some(headers_with_server("bigip")));
    site.classify(&["192.168.0.0/24".parse().unwrap()]);
    assert_eq!(site.bigip, Verdict::BigIPByHeader);
}

#[test]
fn subnet_verdict_when_header_is_silent() {
    let mut site = Site::new("h.example").unwrap();
    site.apply_resolution(Some(vec![IpAddress::v6(1), IpAddress::v4(192, 168, 0, 200)]));
    site.apply_probe(Some(headers_with_server("nginx/1.2.3")));
    site.classify(&["192.168.0.0/24".parse().unwrap()]);
    assert_eq!(site.bigip, Verdict::BigIPBySubnet);
}

#[test]
fn classifying_again_gives_the_same_verdict() {
    let subnets: Vec<Subnet> = vec!["192.168.0.0/24".parse().unwrap()];
    let mut site = Site::new("h.example").unwrap();
    site.apply_resolution(Some(vec![IpAddress::v4(192, 168, 0, 1)]));
    site.apply_probe(Some(headers_with_server("nginx")));
    site.classify(&subnets);
    let first = site.bigip;
    site.classify(&subnets);
    assert_eq!(site.bigip, first);
    assert_eq!(first, Verdict::BigIPBySubnet);
    assert_eq!(site.stage, Stage::Classified);
}

#[test]
fn failed_resolution_does_not_stop_later_hosts() {
    let sites = sites_from_lines(&lines("gone.invalid\nthere.example"));
    let outcomes = vec![
        HostOutcome { addrs: None, headers: Some(headers_with_server("BigIP")) },
        HostOutcome { addrs: Some(vec![IpAddress::v4(10, 0, 0, 1)]), headers: Some(headers_with_server("nginx")) },
    ];
    let table: Vec<Subnet> = vec!["10.0.0.0/8".parse().unwrap()];
    let result = process_all(sites, outcomes, &table);
    assert_eq!(result.len(), 2);
    assert!(result[0].addrs.is_empty());
    assert_eq!(result[0].bigip, Verdict::BigIPByHeader);
    assert_eq!(result[1].addrs, vec![IpAddress::v4(10, 0, 0, 1)]);
    assert_eq!(result[1].bigip, Verdict::BigIPBySubnet);
}

#[test]
fn failed_probe_does_not_stop_later_hosts() {
    let sites = sites_from_lines(&lines("a.example\nb.example"));
    let outcomes = vec![
        HostOutcome { addrs: Some(vec![IpAddress::v4(1, 1, 1, 1)]), headers: None },
        HostOutcome { addrs: Some(vec![IpAddress::v4(2, 2, 2, 2)]), headers: Some(headers_with_server("BIGIP")) },
    ];
    let result = process_all(sites, outcomes, &[]);
    assert_eq!(result.len(), 2);
    assert!(result[0].headers.is_empty());
    assert_eq!(result[0].bigip, Verdict::NotDetected);
    assert_eq!(result[1].headers.len(), 2);
    assert_eq!(result[1].bigip, Verdict::BigIPByHeader);
}

#[test]
fn good_and_unresolvable_hosts_end_to_end() {
    let sites = sites_from_lines(&lines("good.example\nnxdomain.invalid"));
    let table = subnets_from_lines(&lines("192.168.0.0/24"));
    let outcomes = vec![
        HostOutcome { addrs: Some(vec![IpAddress::v4(93, 184, 216, 34)]), headers: Some(headers_with_server("ECS")) },
        HostOutcome { addrs: None, headers: None },
    ];
    let result = process_all(sites, outcomes, &table);
    assert_eq!(result.len(), 2);
    assert_eq!(result[0].host, "good.example");
    assert!(!result[0].addrs.is_empty());
    assert!(!result[0].headers.is_empty());
    assert_eq!(result[1].host, "nxdomain.invalid");
    assert!(result[1].addrs.is_empty());
    assert!(result[1].headers.is_empty());
    assert_eq!(result[1].bigip, Verdict::NotDetected);
    assert!(result.iter().all(|s| s.stage == Stage::Classified));
}
