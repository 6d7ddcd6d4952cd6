use quicksupport::netinfo::{ip_text, is_rfc1918, is_usable, local_ips, primary_ip, IpAddr, Ipv4};

fn v4(a: u8, b: u8, c: u8, d: u8) -> Ipv4 {
    Ipv4 { a, b, c, d }
}

fn samples() -> Vec<Ipv4> {
    let edges = [0u8, 1, 9, 10, 11, 15, 16, 17, 31, 32, 126, 127, 128, 167, 168, 169, 172, 192, 254, 255];
    let mut out = Vec::new();
    for a in edges {
        for b in edges {
            for c in [0u8, 1, 255] {
                for d in [0u8, 1, 255] {
                    out.push(v4(a, b, c, d));
                }
            }
        }
    }
    out
}

#[test]
fn usable_addresses() {
    assert!(is_usable(v4(8, 8, 8, 8)));
    assert!(!is_usable(v4(127, 0, 0, 1)));
    assert!(!is_usable(v4(0, 0, 0, 0)));
    assert!(is_usable(v4(0, 0, 0, 1)));
    assert!(!is_usable(v4(169, 254, 3, 4)));
    assert!(!is_usable(v4(255, 255, 255, 255)));
    assert!(is_usable(v4(255, 255, 255, 254)));
    assert!(!is_usable(v4(127, 255, 3, 4)));
    assert!(is_usable(v4(169, 253, 3, 4)));
    assert!(is_usable(v4(126, 0, 0, 1)));
}

#[test]
fn private_addresses() {
    assert!(is_rfc1918(v4(10, 211, 55, 2)));
    assert!(is_rfc1918(v4(172, 16, 0, 1)));
    assert!(is_rfc1918(v4(172, 31, 255, 255)));
    assert!(!is_rfc1918(v4(172, 15, 0, 1)));
    assert!(!is_rfc1918(v4(172, 32, 0, 1)));
    assert!(is_rfc1918(v4(192, 168, 1, 1)));
    assert!(!is_rfc1918(v4(192, 169, 1, 1)));
    assert!(!is_rfc1918(v4(11, 0, 0, 1)));
    assert!(!is_rfc1918(v4(8, 8, 8, 8)));
}

#[test]
fn dotted_notation_is_unambiguous() {
    assert_eq!(ip_text(v4(192, 168, 0, 10)), "192.168.0.10");
    assert_ne!(ip_text(v4(1, 11, 1, 1)), ip_text(v4(11, 1, 1, 1)));
    for ip in samples() {
        assert_eq!(ip_text(ip), format!("{}.{}.{}.{}", ip.a, ip.b, ip.c, ip.d));
    }
}

#[test]
fn primary_address_must_be_usable() {
    assert!(primary_ip(None).is_none());
    assert!(primary_ip(Some(IpAddr::V6)).is_none());
    assert!(primary_ip(Some(IpAddr::V4(v4(127, 0, 0, 1)))).is_none());
    assert!(primary_ip(Some(IpAddr::V4(v4(192, 168, 1, 7)))) == Some(v4(192, 168, 1, 7)));
}

#[test]
fn local_addresses_are_ranked_and_distinct() {
    let found = [
        IpAddr::V4(v4(127, 0, 0, 1)),
        IpAddr::V4(v4(100, 64, 0, 9)),
        IpAddr::V6,
        IpAddr::V4(v4(10, 211, 55, 2)),
        IpAddr::V4(v4(192, 168, 1, 7)),
        IpAddr::V4(v4(10, 37, 129, 2)),
        IpAddr::V4(v4(10, 211, 55, 2)),
        IpAddr::V4(v4(8, 8, 4, 4)),
        IpAddr::V4(v4(169, 254, 0, 1)),
    ];
    assert_eq!(
        local_ips(Some(v4(192, 168, 1, 7)), &found),
        ["192.168.1.7", "10.211.55.2", "10.37.129.2", "100.64.0.9", "8.8.4.4"]
    );
    assert_eq!(
        local_ips(None, &found),
        ["10.211.55.2", "192.168.1.7", "10.37.129.2", "100.64.0.9", "8.8.4.4"]
    );
    assert_eq!(local_ips(Some(v4(8, 8, 4, 4)), &found)[0], "8.8.4.4");
    assert_eq!(local_ips(Some(v4(8, 8, 4, 4)), &[]), ["8.8.4.4"]);
    assert!(local_ips(None, &[]).is_empty());
}
