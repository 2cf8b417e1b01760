use chat_relay::peer::PeerId;
use chat_relay::registry::{ClientHandle, ClientRegistry};

fn id(name: &str) -> PeerId {
    PeerId::new(name.as_bytes().to_vec())
}

fn client(name: &str, outbound: u8) -> ClientHandle<u8> {
    ClientHandle { id: id(name), outbound }
}

#[test]
fn peer_ids_compare_by_their_bytes() {
    assert!(id("127.0.0.1:3000").same(&id("127.0.0.1:3000")));
    assert!(!id("127.0.0.1:3000").same(&id("127.0.0.1:3001")));
    assert!(!id("ab").same(&id("abc")));
    assert!(!id("abc").same(&id("ab")));
    assert!(id("").same(&id("")));
    assert!(!id("").same(&id("a")));
    let first = id("[::1]:4000");
    let copy = first.duplicate();
    assert!(copy.same(&first));
    assert_eq!(copy, first);
    assert_eq!(PeerId::new(vec![1, 2, 3]).text, vec![1, 2, 3]);
}

#[test]
fn insert_refuses_a_held_identity() {
    let mut registry: ClientRegistry<u8> = ClientRegistry::new();
    assert_eq!(registry.len(), 0);
    assert!(registry.insert(client("A", 1)));
    assert!(registry.insert(client("B", 2)));
    assert!(!registry.insert(client("A", 3)));
    assert_eq!(registry.len(), 2);
    assert_eq!(registry.outbound(&id("A")), Some(&1));
    assert_eq!(registry.peers(), vec![id("A"), id("B")]);
}

#[test]
fn contains_tells_who_is_registered() {
    let mut registry: ClientRegistry<u8> = ClientRegistry::new();
    assert!(!registry.contains(&id("A")));
    registry.insert(client("A", 1));
    assert!(registry.contains(&id("A")));
    assert!(!registry.contains(&id("B")));
    assert!(!registry.contains(&id("")));
}

#[test]
fn remove_hands_back_the_entry_and_keeps_the_order() {
    let mut registry: ClientRegistry<u8> = ClientRegistry::new();
    registry.insert(client("A", 1));
    registry.insert(client("B", 2));
    registry.insert(client("C", 3));
    let gone = registry.remove(&id("B")).unwrap();
    assert_eq!(gone.id, id("B"));
    assert_eq!(gone.outbound, 2);
    assert_eq!(registry.peers(), vec![id("A"), id("C")]);
    assert!(registry.remove(&id("B")).is_none());
    assert_eq!(registry.peers(), vec![id("A"), id("C")]);
    assert!(registry.remove(&id("A")).is_some());
    assert!(registry.remove(&id("C")).is_some());
    assert_eq!(registry.len(), 0);
    assert!(registry.remove(&id("C")).is_none());
}

#[test]
fn outbound_finds_the_channel_of_a_peer() {
    let mut registry: ClientRegistry<u8> = ClientRegistry::new();
    assert_eq!(registry.outbound(&id("A")), None);
    registry.insert(client("A", 10));
    registry.insert(client("B", 20));
    assert_eq!(registry.outbound(&id("A")), Some(&10));
    assert_eq!(registry.outbound(&id("B")), Some(&20));
    assert_eq!(registry.outbound(&id("C")), None);
}
