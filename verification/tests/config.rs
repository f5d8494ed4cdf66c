use raft_kv::config::{add_peer, parse_peers};

#[test]
fn peers_are_split_at_commas() {
    let peers = parse_peers("http://node-2:50051,http://node-3:50051");
    assert_eq!(peers, vec!["http://node-2:50051".to_string(), "http://node-3:50051".to_string()]);
}

#[test]
fn empty_peer_names_are_dropped() {
    assert!(parse_peers("").is_empty());
    assert!(parse_peers(",,,").is_empty());
    assert_eq!(parse_peers(",a,,b,"), vec!["a".to_string(), "b".to_string()]);
    assert_eq!(parse_peers(" a "), vec![" a ".to_string()]);
}

#[test]
fn parse_peers_agrees_with_split_and_filter() {
    for text in ["", "x", "x,y", ",x", "x,", "é,ü,,ß", "http://a:1,http://b:2,http://c:3"] {
        let expected: Vec<String> =
            text.split(',').filter(|s| !s.is_empty()).map(|s| s.to_string()).collect();
        assert_eq!(parse_peers(text), expected);
    }
}

#[test]
fn discovered_peers_are_added_once() {
    let mut peers = vec!["http://a:1".to_string()];
    add_peer(&mut peers, "http://b:2".to_string());
    add_peer(&mut peers, "http://a:1".to_string());
    add_peer(&mut peers, "http://b:2".to_string());
    assert_eq!(peers, vec!["http://a:1".to_string(), "http://b:2".to_string()]);
}
