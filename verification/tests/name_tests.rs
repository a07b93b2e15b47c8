use pektin_api::dns_name::{covered, name_is_absolute, parse_dns_name, DnsName};
use pektin_api::ipv4::parse_ipv4;

fn name(s: &str) -> DnsName {
    parse_dns_name(s).expect("name should parse")
}

#[test]
fn zone_covers_itself() {
    assert!(covered(&name("example.com."), &name("example.com.")));
}

#[test]
fn zone_covers_subdomain() {
    assert!(covered(&name("sub.example.com."), &name("example.com.")));
}

#[test]
fn subdomain_does_not_cover_parent() {
    assert!(!covered(&name("example.com."), &name("sub.example.com.")));
}

#[test]
fn suffix_match_respects_label_boundaries() {
    assert!(!covered(&name("evilexample.com."), &name("example.com.")));
}

#[test]
fn root_zone_covers_everything() {
    assert!(covered(&name("example.com."), &name(".")));
    assert!(covered(&name("."), &name(".")));
}

#[test]
fn comparison_is_case_insensitive() {
    assert!(covered(&name("SUB.Example.COM."), &name("example.com.")));
}

#[test]
fn parse_splits_labels() {
    let d = name("sub.example.com.");
    let labels: Vec<String> = d.labels.iter().map(|l| l.iter().collect()).collect();
    assert_eq!(labels, vec!["sub".to_string(), "example".to_string(), "com".to_string()]);
    assert!(d.fqdn);
}

#[test]
fn parse_lowercases_labels() {
    let upper = name("EXAMPLE.Com.");
    let lower = name("example.com.");
    assert_eq!(upper.labels, lower.labels);
}

#[test]
fn parse_accepts_relative_names() {
    let d = name("example.com");
    assert!(!d.fqdn);
    assert_eq!(d.labels.len(), 2);
}

#[test]
fn parse_accepts_root() {
    let d = name(".");
    assert!(d.fqdn);
    assert!(d.labels.is_empty());
}

#[test]
fn parse_rejects_malformed_names() {
    assert!(parse_dns_name("").is_none());
    assert!(parse_dns_name("..").is_none());
    assert!(parse_dns_name(".example.com.").is_none());
    assert!(parse_dns_name("sub..example.com.").is_none());
    assert!(parse_dns_name("exa mple.com.").is_none());
    assert!(parse_dns_name("example.com!.").is_none());
}

#[test]
fn absoluteness_requires_the_root_dot() {
    assert!(name_is_absolute("example.com."));
    assert!(!name_is_absolute("example.com"));
    assert!(!name_is_absolute("not a name."));
}

#[test]
fn dotted_quad_parses_to_octets() {
    assert_eq!(parse_ipv4("1.2.3.4"), Some((1, 2, 3, 4)));
    assert_eq!(parse_ipv4("0.0.0.0"), Some((0, 0, 0, 0)));
    assert_eq!(parse_ipv4("255.255.255.255"), Some((255, 255, 255, 255)));
    assert_eq!(parse_ipv4("01.2.3.4"), Some((1, 2, 3, 4)));
}

#[test]
fn malformed_dotted_quads_are_rejected() {
    assert_eq!(parse_ipv4("256.1.1.1"), None);
    assert_eq!(parse_ipv4("1.2.3"), None);
    assert_eq!(parse_ipv4("1.2.3.4.5"), None);
    assert_eq!(parse_ipv4("1.2.3."), None);
    assert_eq!(parse_ipv4("a.b.c.d"), None);
    assert_eq!(parse_ipv4(""), None);
    assert_eq!(parse_ipv4("1234.1.1.1"), None);
}
