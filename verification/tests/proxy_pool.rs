use vuelo::proxy::{build_proxy_group, parse_proxy, ProxyGroup};
use vuelo::Error;

fn strs(items: &[&str]) -> Vec<String> {
    items.iter().map(|s| s.to_string()).collect()
}

#[test]
fn parse_anonymous_proxy() {
    let e = parse_proxy(b"1.2.3.4:8080").unwrap();
    assert_eq!(e.host, b"1.2.3.4".to_vec());
    assert_eq!(e.port, b"8080".to_vec());
    assert!(e.credentials.is_none());
}

#[test]
fn parse_authenticated_proxy() {
    let e = parse_proxy(b"1.2.3.4:8080:user:pass").unwrap();
    assert_eq!(e.host, b"1.2.3.4".to_vec());
    assert_eq!(e.port, b"8080".to_vec());
    let c = e.credentials.unwrap();
    assert_eq!(c.username, b"user".to_vec());
    assert_eq!(c.password, b"pass".to_vec());
}

#[test]
fn parse_proxy_rejects_one_token() {
    let r = parse_proxy(b"1.2.3.4");
    assert!(matches!(r, Err(Error::ProxyFormatError)));
}

#[test]
fn parse_proxy_rejects_three_tokens() {
    let r = parse_proxy(b"a:b:c");
    assert!(matches!(r, Err(Error::ProxyFormatError)));
}

#[test]
fn from_strs_is_all_or_nothing() {
    let ok = ProxyGroup::from_strs(strs(&["1.2.3.4:8080", "5.6.7.8:9090:u:p"])).unwrap();
    assert_eq!(ok.proxies.len(), 2);
    assert_eq!(ok.index, 0);

    let bad = ProxyGroup::from_strs(strs(&["1.2.3.4:8080", "oops"]));
    assert!(matches!(bad, Err(Error::ProxyFormatError)));
}

#[test]
fn rotation_visits_every_element_before_repeating() {
    let mut g = ProxyGroup::from_strs(strs(&["a:1", "b:2", "c:3", "d:4"])).unwrap();
    let mut seen = Vec::new();
    for _ in 0..4 {
        let e = g.next_proxy().unwrap();
        assert!(!seen.contains(&e.host), "an element repeated within one cycle");
        seen.push(e.host);
    }
    assert_eq!(
        seen,
        vec![b"b".to_vec(), b"c".to_vec(), b"d".to_vec(), b"a".to_vec()],
        "fixed cyclic order starting after the initial cursor"
    );
    // The next full cycle repeats the same order.
    for expected in [b"b".to_vec(), b"c".to_vec(), b"d".to_vec(), b"a".to_vec()] {
        assert_eq!(g.next_proxy().unwrap().host, expected);
    }
}

#[test]
fn rotation_on_single_element_is_a_no_op() {
    let mut g = ProxyGroup::from_strs(strs(&["only:1"])).unwrap();
    for _ in 0..5 {
        let e = g.next_proxy().unwrap();
        assert_eq!(e.host, b"only".to_vec());
        assert_eq!(g.index, 0);
    }
}

#[test]
fn rotation_on_empty_pool_fails_without_moving_the_cursor() {
    let mut g = ProxyGroup::from_strs(Vec::new()).unwrap();
    assert_eq!(g.index, 0);
    let r = g.next_proxy();
    assert!(matches!(r, Err(Error::ProxyNotFoundError)));
    assert_eq!(g.index, 0);
    assert!(g.proxies.is_empty());
}

#[test]
fn no_configured_proxies_disables_rotation() {
    let none = build_proxy_group(Vec::new()).unwrap();
    assert!(none.is_none());

    let some = build_proxy_group(strs(&["h:1"])).unwrap();
    assert!(some.is_some());

    let bad = build_proxy_group(strs(&["h"]));
    assert!(matches!(bad, Err(Error::ProxyFormatError)));
}

#[test]
fn error_labels_are_stable() {
    assert_eq!(Error::ProxyFormatError.label(), "proxy format error");
    assert_eq!(Error::ProxyNotFoundError.label(), "proxy not found");
    assert_eq!(Error::NetworkError.label(), "network error");
}
