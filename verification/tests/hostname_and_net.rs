use std::cmp::Ordering;
use svudko::hostname::Hostname;
use svudko::net::{same_scoped_ip, AddressSet, InterfaceId, IpAddress, ScopedIp, ScopedIpV4, ScopedIpV6};
use svudko::storage::database_path;
use svudko::text::{chars_of, contains_exec, string_from_chars, StringSet};

#[test]
fn hostname_new_strips_local_suffix() {
    assert_eq!(Hostname::new("laptop.local".to_string()).as_str(), "laptop");
}

#[test]
fn hostname_new_keeps_plain_name() {
    assert_eq!(Hostname::new("laptop".to_string()).as_str(), "laptop");
    assert_eq!(Hostname::new("a.local.b".to_string()).as_str(), "a.local.b");
}

#[test]
fn hostname_new_removes_every_local_when_suffixed() {
    assert_eq!(Hostname::new("a.local.b.local".to_string()).as_str(), "a.b");
}

#[test]
fn hostname_new_is_not_idempotent_on_split_suffix() {
    let once = Hostname::new("a.lo.localcal.local".to_string());
    assert_eq!(once.as_str(), "a.local");
    assert_eq!(Hostname::new(once.into_inner()).as_str(), "a");
}

#[test]
fn hostname_local_dns_name_round_trip() {
    let h = Hostname::new("desk".to_string());
    let dns = h.to_local_dns_name();
    assert_eq!(dns, "desk.local");
    assert_eq!(Hostname::new(dns).as_str(), "desk");
}

#[test]
fn hostname_mdns_name_has_root_dot() {
    assert_eq!(Hostname::new("desk".to_string()).to_mdns_name(), "desk.local.");
}

#[test]
fn hostname_equality_compares_names() {
    assert!(Hostname::new("x.local".to_string()) == Hostname::new("x".to_string()));
    assert!(Hostname::new("x".to_string()) != Hostname::new("y".to_string()));
}

#[test]
fn text_helpers() {
    let v = chars_of("héllo");
    assert_eq!(v.len(), 5);
    assert_eq!(string_from_chars(&v), "héllo");
    assert!(contains_exec(&chars_of("abcdef"), &chars_of("cde")));
    assert!(!contains_exec(&chars_of("abcdef"), &chars_of("ce")));
    assert!(contains_exec(&chars_of("abc"), &chars_of("")));
}

#[test]
fn ipv4_loopback_is_127_slash_8() {
    assert!(IpAddress::V4(0x7f00_0001).is_loopback());
    assert!(IpAddress::V4(0x7fff_ffff).is_loopback());
    assert!(!IpAddress::V4(0xc0a8_0001).is_loopback());
    assert!(IpAddress::V6(1).is_loopback());
    assert!(!IpAddress::V6(2).is_loopback());
}

#[test]
fn scoped_ip_accessors() {
    let v4 = ScopedIp::V4(ScopedIpV4 { addr: 0xc0a8_0102, interface_ids: vec![InterfaceId::default()] });
    let v6 = ScopedIp::V6(ScopedIpV6 { addr: 1, scope_id: InterfaceId { name: "lo".to_string(), index: 1 } });
    assert!(v4.is_ipv4() && !v4.is_ipv6() && !v4.is_loopback());
    assert!(v6.is_ipv6() && !v6.is_ipv4() && v6.is_loopback());
    assert_eq!(v4.to_ip_addr(), IpAddress::V4(0xc0a8_0102));
    assert_eq!(v6.to_ip_addr(), IpAddress::V6(1));
}

#[test]
fn database_path_joins_file_name() {
    assert_eq!(database_path("/home/u/.local/share/svukdo"), "/home/u/.local/share/svukdo/svudko.db");
    assert_eq!(database_path("/data/"), "/data/svudko.db");
    assert_eq!(database_path(""), "svudko.db");
}

#[test]
fn hostnames_order_by_name() {
    let a = Hostname::new("alpha".to_string());
    let b = Hostname::new("beta.local".to_string());
    assert!(a < b);
    let mut v = vec![b.clone(), a.clone()];
    v.sort();
    assert_eq!(v[0].as_str(), "alpha");
    assert_eq!(v[1].as_str(), "beta");
}

fn iface(name: &str, index: u32) -> InterfaceId {
    InterfaceId { name: name.to_string(), index }
}

#[test]
fn address_set_keeps_each_address_once() {
    let a = ScopedIp::V4(ScopedIpV4 { addr: 0x0a00_0001, interface_ids: vec![iface("en0", 1)] });
    let a_again = ScopedIp::V4(ScopedIpV4 { addr: 0x0a00_0001, interface_ids: vec![iface("en0", 1)] });
    let a_other_if = ScopedIp::V4(ScopedIpV4 { addr: 0x0a00_0001, interface_ids: vec![iface("en1", 2)] });
    let b = ScopedIp::V6(ScopedIpV6 { addr: 1, scope_id: iface("lo", 1) });
    let b_again = ScopedIp::V6(ScopedIpV6 { addr: 1, scope_id: iface("lo", 1) });
    assert!(same_scoped_ip(&a, &a_again));
    assert!(!same_scoped_ip(&a, &a_other_if));
    assert!(!same_scoped_ip(&a, &b));
    let set = AddressSet::from_vec(vec![a, b, a_again, a_other_if, b_again]);
    assert_eq!(set.len(), 3);
    let held = set.as_vec();
    assert_eq!(held[0].to_ip_addr(), IpAddress::V4(0x0a00_0001));
    assert_eq!(held[1].to_ip_addr(), IpAddress::V6(1));
    assert!(AddressSet::new().as_vec().is_empty());
}

#[test]
fn string_set_holds_each_string_once() {
    let mut s = StringSet::new();
    assert_eq!(s.len(), 0);
    s.insert("a".to_string());
    s.insert("b".to_string());
    s.insert("a".to_string());
    assert_eq!(s.len(), 2);
    assert!(s.contains(&"a".to_string()) && s.contains(&"b".to_string()));
    assert!(!s.contains(&"c".to_string()));
    let copy = s.clone();
    let mut items = copy.to_vec();
    items.sort();
    assert_eq!(items, vec!["a".to_string(), "b".to_string()]);
}

#[test]
fn hostname_partial_order_follows_characters() {
    let h = |s: &str| Hostname::new(s.to_string());
    assert_eq!(h("ab").partial_cmp(&h("abc")), Some(Ordering::Less));
    assert_eq!(h("b").partial_cmp(&h("abc")), Some(Ordering::Greater));
    assert_eq!(h("x.local").partial_cmp(&h("x")), Some(Ordering::Equal));
    assert_eq!(h("Z").partial_cmp(&h("a")), Some(Ordering::Less));
    assert_eq!(h("é").partial_cmp(&h("z")), Some(Ordering::Greater));
    assert_eq!(h("ab").cmp(&h("abc")), h("ab").partial_cmp(&h("abc")).unwrap());
}
