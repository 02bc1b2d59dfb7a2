use pve_rs::firewall::{Ipset, IpsetAddress, IpsetEntry, LegacyIpsetEntry, SdnFirewallConfig};
use pve_rs::logger::{init, LogLevel};
use pve_rs::sdn_status::{fabric_status, route_status, FabricStatus, Nexthop, Route};
use pve_rs::shared_cache::Params;

fn entry(address: IpsetAddress) -> IpsetEntry {
    IpsetEntry { nomatch: true, address, comment: Some("c".into()) }
}

#[test]
fn ranges_become_one_entry_per_cidr() {
    let e = entry(IpsetAddress::Range(vec!["10.0.0.0/31".into(), "10.0.0.2/32".into()]));
    let out = LegacyIpsetEntry::from_ipset_entry(&e);
    assert_eq!(out.len(), 2);
    assert_eq!(out[1].cidr, "10.0.0.2/32");
    assert!(out[1].nomatch);
    assert_eq!(out[1].comment.as_deref(), Some("c"));
    let a = LegacyIpsetEntry::from_ipset_entry(&entry(IpsetAddress::Alias("dc/net".into())));
    assert_eq!(a.len(), 1);
    assert_eq!(a[0].cidr, "dc/net");
}

#[test]
fn later_ipsets_replace_earlier_ones() {
    let mut config = SdnFirewallConfig::new();
    config.extend_ipsets(vec![
        Ipset { name: "a".into(), comment: Some("first".into()), entries: vec![entry(IpsetAddress::Cidr("1.1.1.1/32".into()))] },
        Ipset { name: "b".into(), comment: None, entries: vec![] },
        Ipset { name: "a".into(), comment: None, entries: vec![
            entry(IpsetAddress::Cidr("2.2.2.2/32".into())),
            entry(IpsetAddress::Range(vec!["3.3.3.0/24".into()])),
        ] },
    ]);
    assert_eq!(config.ipset.len(), 2);
    let a = &config.ipset.iter().find(|(n, _)| n == "a").unwrap().1;
    let cidrs: Vec<&str> = a.iter().map(|e| e.cidr.as_str()).collect();
    assert_eq!(cidrs, vec!["2.2.2.2/32", "3.3.3.0/24"]);
    assert_eq!(config.ipset_comments, vec![("a".to_string(), "first".to_string())]);
}

fn hop(ip: Option<&str>, iface: Option<&str>, unreachable: Option<bool>) -> Nexthop {
    Nexthop { ip: ip.map(String::from), interface_name: iface.map(String::from), unreachable }
}

#[test]
fn routes_of_a_fabric_and_its_status() {
    let ifaces = vec!["ens19".to_string(), "dummy_test".to_string()];
    let routes = vec![
        Route { installed: Some(false), nexthops: vec![hop(Some("10.0.0.1"), Some("ens19"), None)] },
        Route { installed: Some(true), nexthops: vec![hop(None, Some("ens20"), None), hop(None, None, Some(true)), hop(None, None, None)] },
    ];
    assert!(route_status("10.0.0.0/24", &routes, &ifaces).is_none());
    assert_eq!(fabric_status(&ifaces, &routes), FabricStatus::IsOk);
    let routes2 = vec![Route { installed: Some(true), nexthops: vec![hop(Some("10.0.0.1"), Some("ens19"), None), hop(None, Some("ens20"), None)] }];
    let st = route_status("10.0.0.0/24", &routes2, &ifaces).unwrap();
    assert_eq!(st.route, "10.0.0.0/24");
    assert_eq!(st.via, vec!["10.0.0.1", "ens20"]);
    assert_eq!(fabric_status(&vec!["eth9".to_string()], &routes2), FabricStatus::NotOk);
}

#[test]
fn mail_gateway_logging_defaults() {
    let setup = init();
    assert_eq!(setup.env_var, "PMG_LOG");
    assert_eq!(setup.default_level, LogLevel::Info);
    let p = Params { path: "/run/cache".into(), owner: 0, group: 33, entry_mode: 0o640, keep_old: 2 };
    assert_eq!(p.keep_old, 2);
}
