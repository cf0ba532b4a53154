use quilkin::{
    forward_pairs, Address, AddrPair, Endpoint, Metadata, Packet, SessionRegistry, Value,
};

fn addr(port: u16) -> Address {
    Address::V4 { octets: 0x7f00_0001, port }
}

#[test]
fn registry_keeps_one_session_per_pair() {
    let mut registry: SessionRegistry<u32> = SessionRegistry::new();
    let a = AddrPair { client: addr(1), upstream: addr(10) };
    let b = AddrPair { client: addr(1), upstream: addr(11) };
    assert!(!registry.contains(&a));
    assert!(registry.insert_if_absent(a, 1));
    assert!(!registry.insert_if_absent(a, 2));
    assert!(registry.insert_if_absent(b, 3));
    assert_eq!(2, registry.len());
    assert_eq!(Some(&1), registry.get(&a));
    assert_eq!(Some(&3), registry.get(&b));
    assert_eq!(None, registry.get(&AddrPair { client: addr(2), upstream: addr(10) }));
}

#[test]
fn forward_pairs_one_per_endpoint() {
    let endpoints = vec![Endpoint::new(addr(10)), Endpoint::new(addr(11))];
    let pairs = forward_pairs(addr(1), &endpoints);
    assert_eq!(
        vec![
            AddrPair { client: addr(1), upstream: addr(10) },
            AddrPair { client: addr(1), upstream: addr(11) },
        ],
        pairs
    );
    assert!(forward_pairs(addr(1), &Vec::new()).is_empty());
}

#[test]
fn reply_goes_to_client_verbatim() {
    let pair = AddrPair { client: addr(1), upstream: addr(10) };
    let packet = Packet::reply(pair, b"pong".to_vec());
    assert_eq!(addr(1), packet.dest);
    assert_eq!(b"pong".to_vec(), packet.contents);
}

#[test]
fn metadata_insert_replaces() {
    let mut m = Metadata::new();
    let k = "k".to_string();
    assert_eq!(None, m.get(&k));
    m.insert(k.clone(), Value::Bool(false));
    m.insert("other".to_string(), Value::String("x".to_string()));
    m.insert(k.clone(), Value::Bool(true));
    assert_eq!(Some(&Value::Bool(true)), m.get(&k));
    assert_eq!(Some(true), m.get(&k).unwrap().as_bool());
    assert_eq!(Some(&Value::String("x".to_string())), m.get(&"other".to_string()));
}

#[test]
fn address_port() {
    assert_eq!(12345, Address::V6 { segments: 0, port: 12345 }.port());
}
