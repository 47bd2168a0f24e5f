use hopr_utilities::network_types::types::{with_port, IpAddr, IpOrHost, IpOrHostExt, Resolution, SocketAddr};

fn local(port: u16) -> SocketAddr {
    SocketAddr {
        ip: IpAddr::V4([127, 0, 0, 1]),
        port,
        flowinfo: 0,
        scope_id: 0,
    }
}

#[test]
fn ip_or_host_must_resolve_ip_address() {
    let actual = match IpOrHost::Ip(local(1000)).resolve_tokio() {
        Resolution::Resolved(found) => found,
        Resolution::Lookup(..) => panic!("must resolve"),
    };
    let actual = *actual.first().expect("must resolve");
    assert_eq!(actual, local(1000));
}

#[test]
fn a_name_is_looked_up_and_every_address_gets_the_port() {
    let name = match IpOrHost::Dns("example.org".to_string(), 443).resolve_tokio() {
        Resolution::Lookup(name, 443) => name,
        other => panic!("unexpected {other:?}"),
    };
    assert_eq!(name, "example.org");
    let found = vec![IpAddr::V4([127, 0, 0, 1]), IpAddr::V6([1; 16])];
    let addresses = with_port(&found, 443);
    assert_eq!(addresses.len(), 2);
    assert_eq!(addresses[0], local(443));
    assert_eq!(addresses[1].ip, IpAddr::V6([1; 16]));
    assert_eq!(addresses[1].port, 443);
    assert_eq!(with_port(&vec![], 443), vec![]);
}
