use pq_ldk_sample::credentials::{cookie_path, read_cookie, read_env_value, rpc_auth};
use pq_ldk_sample::network::Network;
use pq_ldk_sample::peers::{
    any_announced, contains_key, do_connect_peer, non_onion, parse_peer_info, reconnect_decision,
    search_step, split_peer_info, start_search, AddressKind, ConnectEvent, ConnectStep,
    PeerInfoError, Reconnect, SearchAction, SearchEvent, SearchState,
};
use pq_ldk_sample::startup::{
    check_chain, configure, data_dir, data_path, listen_address, listeners, parse_startup_args, plan_seed,
    plan_shutdown, plan_sweeper, read_keys_seed, should_announce, DataFile, SeedPlan,
    ShutdownStep, StartupError, StoreRead, SweeperStart,
};

const KEY: &str = "0279be667ef9dcbbac55a06295ce870b07029bfcdb2dce28d959f2815b16f81798";

fn words(line: &str) -> Vec<String> {
    line.split_whitespace().map(|w| w.to_string()).collect()
}

#[test]
fn a_command_line_is_read() {
    let args = words("ldk:p:w@127.0.0.1:18443 /tmp/alice 9737 regtest alice 127.0.0.1:9737 [::1]:9737 --pq-listen-port=9736 --gossip-stats");
    let info = parse_startup_args(&args, true).unwrap();
    assert_eq!(info.bitcoind_rpc_auth, Some(("ldk".to_string(), "p:w".to_string())));
    assert_eq!(info.bitcoind_rpc_host, "127.0.0.1");
    assert_eq!(info.bitcoind_rpc_port, 18443);
    assert_eq!(info.ldk_storage_dir_path, "/tmp/alice");
    assert_eq!(info.ldk_peer_listening_port, 9737);
    assert_eq!(info.network, Network::Regtest);
    assert_eq!(&info.ldk_announced_node_name[..6], b"alice\0");
    assert_eq!(info.ldk_announced_listen_addr, vec!["127.0.0.1:9737", "[::1]:9737"]);
    assert_eq!(info.flags.pq_listen_port, Some(9736));
    assert!(info.flags.gossip_stats);
    assert!(!info.flags.pq_require_payments);
}

#[test]
fn what_is_not_named_has_a_default() {
    let info = parse_startup_args(&words("localhost:8332 dir"), false).unwrap();
    assert_eq!(info.bitcoind_rpc_auth, None);
    assert_eq!(info.ldk_peer_listening_port, 9735);
    assert_eq!(info.network, Network::Testnet);
    assert_eq!(info.ldk_announced_node_name, [0; 32]);
    assert!(info.ldk_announced_listen_addr.is_empty());
    assert!(!info.flags.gossip_stats);
    let info = parse_startup_args(&words("localhost:8332 dir signet bob"), false).unwrap();
    assert_eq!(info.ldk_peer_listening_port, 9735);
    assert_eq!(info.network, Network::Signet);
    assert_eq!(&info.ldk_announced_node_name[..4], b"bob\0");
    let info = parse_startup_args(&words("a@b:c@h:1 dir 5 testnet"), false).unwrap();
    assert_eq!(info.bitcoind_rpc_auth, Some(("a@b".to_string(), "c".to_string())));
}

#[test]
fn flags_stand_anywhere() {
    let base = words("u:p@h:1 dir 5 regtest name 1.1.1.1:1");
    for i in 0..=base.len() {
        let mut args = base.clone();
        args.insert(i, "--pq-require-inbound".to_string());
        let info = parse_startup_args(&args, true).unwrap();
        assert!(info.flags.pq_require_inbound);
        assert_eq!(info.ldk_announced_listen_addr, vec!["1.1.1.1:1"]);
        assert_eq!(info.network, Network::Regtest);
        assert_eq!(parse_startup_args(&args, false).err(), Some(StartupError::UnknownFlag));
    }
}

#[test]
fn startup_errors_are_told_apart() {
    let error = |line: &str| parse_startup_args(&words(line), true).err();
    assert_eq!(error("h:1 d --x"), Some(StartupError::UnknownFlag));
    assert_eq!(error("h:1 d --pq-listen-port=x"), Some(StartupError::BadPqPort));
    assert_eq!(error("h:1 d --pq-listen-port"), Some(StartupError::UnknownFlag));
    assert_eq!(error("h:1"), Some(StartupError::MissingArguments));
    assert_eq!(error("user@h:1 d"), Some(StartupError::BadRpcAuth));
    assert_eq!(error("h d"), Some(StartupError::BadRpcPath));
    assert_eq!(error("h:1:2 d"), Some(StartupError::BadRpcPath));
    assert_eq!(error("h:x d"), Some(StartupError::BadRpcPort));
    assert_eq!(error("h:1 d 5 bitcoin"), Some(StartupError::BadNetwork));
    let long = format!("h:1 d 5 regtest {}", "n".repeat(33));
    assert_eq!(error(&long), Some(StartupError::LongNodeName));
    assert_eq!(error("h:1 d 5 regtest bob 1.2.3.4"), Some(StartupError::BadListenAddress));
    assert_eq!(error("h:1 d 5 regtest bob 1.2.3.4:5 a:b:c"), Some(StartupError::BadListenAddress));
    assert_eq!(error("h:1 d 5 regtest bob 1.2.3.4:5 [::1]:6 node.example:7"), None);
    assert_eq!(StartupError::BadRpcPath.message(), "ERROR: bad bitcoind RPC path provided");
    let exact = format!("h:1 d 5 regtest {}", "n".repeat(32));
    assert_eq!(parse_startup_args(&words(&exact), true).unwrap().ldk_announced_node_name, [b'n'; 32]);
}

#[test]
fn flags_set_up_the_channels() {
    let flags = parse_startup_args(&words("h:1 d --pq-require-payments --pq-blinded-paths"), true).unwrap().flags;
    let config = configure(&flags);
    assert!(config.require_post_quantum_payments);
    assert!(config.build_post_quantum_blinded_paths);
    assert!(!config.require_post_quantum_inbound);
    assert!(!config.force_announced_channel_preference);
    assert!(config.negotiate_anchors_zero_fee_htlc_tx);
    assert!(config.accept_forwards_to_priv_channels);
}

#[test]
fn the_chain_has_to_be_the_right_one() {
    let chains = [
        (Network::Bitcoin, "main"),
        (Network::Regtest, "regtest"),
        (Network::Signet, "signet"),
        (Network::Testnet, "test"),
        (Network::Testnet4, "test"),
    ];
    for (network, chain) in chains {
        assert_eq!(check_chain(network, &chain.to_string()), None);
    }
    assert_eq!(
        check_chain(Network::Regtest, &"main".to_string()),
        Some("Chain argument (regtest) didn't match bitcoind chain (main)".to_string())
    );
    assert_eq!(Network::Testnet4.to_text(), "testnet4");
}

#[test]
fn data_has_its_place() {
    let dir = data_dir("/tmp/alice");
    assert_eq!(dir, "/tmp/alice/.ldk");
    let names = [
        (DataFile::KeysSeed, "keys_seed"),
        (DataFile::NetworkGraph, "network_graph"),
        (DataFile::Scorer, "scorer"),
        (DataFile::Manager, "manager"),
        (DataFile::InboundPayments, "inbound_payments"),
        (DataFile::OutboundPayments, "outbound_payments"),
    ];
    for (file, name) in names {
        assert_eq!(data_path(&dir, file), format!("/tmp/alice/.ldk/{}", name));
    }
    assert_eq!(listen_address(9735), "[::]:9735");
    assert_eq!(read_keys_seed(&[3; 32]), Some([3; 32]));
    assert_eq!(read_keys_seed(&[3; 31]), None);
    assert_eq!(read_keys_seed(&[3; 33]), None);
}

#[test]
fn peer_info_is_read() {
    let info = format!("{}@host:1", KEY);
    let parts = split_peer_info(&info);
    assert!(parts.0.is_some());
    assert_eq!(parts.1, Some("host:1".to_string()));
    let (key, addr) = parse_peer_info(&info, Some("1.1.1.1:1".to_string())).unwrap();
    assert_eq!(Some(key), parts.0);
    assert_eq!(addr, "1.1.1.1:1");
    assert_eq!(parse_peer_info(KEY, Some("x".to_string())), Err(PeerInfoError::MissingAddress));
    assert_eq!(parse_peer_info(&info, None), Err(PeerInfoError::BadAddress));
    assert_eq!(parse_peer_info("02@h:1", Some("x".to_string())), Err(PeerInfoError::BadPubkey));
    assert_eq!(parse_peer_info("02@h:1", None), Err(PeerInfoError::BadAddress));
    assert_eq!(PeerInfoError::BadPubkey.message(), "ERROR: unable to parse given pubkey for node");
}

#[test]
fn a_connection_waits_for_its_peer() {
    assert_eq!(do_connect_peer(ConnectEvent::Opened(false)), ConnectStep::Fail);
    assert_eq!(do_connect_peer(ConnectEvent::Opened(true)), ConnectStep::Attach);
    assert_eq!(do_connect_peer(ConnectEvent::Waited { found: false }), ConnectStep::Wait);
    assert_eq!(do_connect_peer(ConnectEvent::Waited { found: true }), ConnectStep::Succeed);
    assert_eq!(do_connect_peer(ConnectEvent::Closed), ConnectStep::Fail);
}

#[test]
fn a_search_tries_the_addresses_in_order() {
    let (state, actions) = start_search(words("a:1 b:2"));
    assert_eq!(actions, vec![SearchAction::Resolve("a:1".to_string())]);
    let (state, actions) = search_step(state, SearchEvent::Addresses(None));
    assert_eq!(actions, vec![SearchAction::Resolve("b:2".to_string())]);
    let (state, actions) = search_step(state, SearchEvent::Addresses(Some(words("1 2"))));
    assert_eq!(actions, vec![SearchAction::FindPeer]);
    let (state, actions) = search_step(state, SearchEvent::Peer(false));
    assert_eq!(actions, vec![SearchAction::Connect("1".to_string())]);
    let (state, actions) = search_step(state, SearchEvent::Connected(false));
    assert_eq!(actions, vec![SearchAction::Complain, SearchAction::FindPeer]);
    let (state, actions) = search_step(state, SearchEvent::Peer(false));
    assert_eq!(actions, vec![SearchAction::Connect("2".to_string())]);
    let (over, actions) = search_step(state, SearchEvent::Connected(false));
    assert_eq!(over, SearchState::Over);
    assert_eq!(actions, vec![SearchAction::Complain]);
    let (over, actions) = search_step(over, SearchEvent::Peer(true));
    assert_eq!(over, SearchState::Over);
    assert_eq!(actions, vec![]);
}

#[test]
fn a_search_ends_with_the_first_success() {
    let (state, _) = start_search(words("a:1 b:2"));
    let (state, _) = search_step(state, SearchEvent::Addresses(Some(words("1 2"))));
    let (state, _) = search_step(state, SearchEvent::Peer(false));
    let (state, actions) = search_step(state, SearchEvent::Connected(true));
    assert_eq!(state, SearchState::Over);
    assert_eq!(actions, vec![]);
    let (state, _) = start_search(words("a:1"));
    let (state, _) = search_step(state, SearchEvent::Addresses(Some(words("1"))));
    let (state, _) = search_step(state, SearchEvent::Peer(true));
    assert_eq!(state, SearchState::Over);
    assert_eq!(start_search(vec![]).0, SearchState::Over);
}

#[test]
fn channel_peers_are_dialled_again() {
    assert_eq!(reconnect_decision(true, true), Reconnect::Skip);
    assert_eq!(reconnect_decision(false, true), Reconnect::Stop);
    assert_eq!(reconnect_decision(false, false), Reconnect::Dial);
    let kinds = vec![AddressKind::OnionV3, AddressKind::Plain, AddressKind::OnionV2, AddressKind::Plain];
    assert_eq!(non_onion(&kinds, &words("a b c d")), words("b d"));
    assert!(any_announced(&vec![false, true]));
    assert!(!any_announced(&vec![false]));
    assert!(contains_key(&vec![[1; 33], [2; 33]], &[2; 33]));
    assert!(!contains_key(&vec![[1; 33]], &[2; 33]));
}

#[test]
fn the_seed_is_kept_or_created() {
    assert!(matches!(plan_seed(&None), SeedPlan::Create));
    assert!(matches!(plan_seed(&Some(vec![4; 32])), SeedPlan::Use(seed) if seed == [4; 32]));
    assert!(matches!(plan_seed(&Some(vec![4; 31])), SeedPlan::Corrupt));
}

#[test]
fn the_sweeper_does_not_forget() {
    assert_eq!(plan_sweeper(StoreRead::Found), SweeperStart::Restore);
    assert_eq!(plan_sweeper(StoreRead::NotFound), SweeperStart::Fresh);
    assert_eq!(plan_sweeper(StoreRead::Failed), SweeperStart::Abort);
}

#[test]
fn peers_are_gone_before_the_node_ends() {
    let first = [ShutdownStep::StopConnecting, ShutdownStep::DisconnectPeers];
    let plan = |failed, listens| plan_shutdown(failed, listens);
    assert_eq!(plan(false, false), first.to_vec());
    assert_eq!(plan(true, true)[2..], [ShutdownStep::PersistManager, ShutdownStep::Abort]);
    assert_eq!(plan(false, true)[2..], [ShutdownStep::SignalBackground, ShutdownStep::AwaitBackground]);
    for (failed, listens) in [(true, true), (true, false), (false, true)] {
        assert_eq!(plan(failed, listens)[..2], first);
    }
}

fn text(s: &str) -> Option<String> {
    Some(s.to_string())
}

fn pair(user: &str, password: &str) -> Option<(String, String)> {
    Some((user.to_string(), password.to_string()))
}

#[test]
fn credentials_come_from_the_nearest_place() {
    let env = "# node\nRPC_USER=carol\r\nRPC_PASSWORD=a=b\nRPC_USER=dave\n";
    let all = rpc_auth(
        pair("alice", "one"),
        text("bob"),
        text("two"),
        text(env),
        text("__cookie__:three"),
    );
    assert_eq!(all, pair("alice", "one"));
    let from_env = rpc_auth(None, text("bob"), text("two"), text(env), text("__cookie__:three"));
    assert_eq!(from_env, pair("bob", "two"));
    let from_file = rpc_auth(None, text("bob"), None, text(env), text("__cookie__:three"));
    assert_eq!(from_file, pair("carol", "a=b"));
    let from_cookie = rpc_auth(None, None, text("two"), text("RPC_USER=x"), text("__cookie__:th:ree\n"));
    assert_eq!(from_cookie, pair("__cookie__", "th:ree"));
    assert_eq!(rpc_auth(None, None, None, None, text("nothing")), None);
    assert_eq!(rpc_auth(None, text("bob"), None, None, None), None);
}

#[test]
fn environment_files_hold_values() {
    assert_eq!(read_env_value("A=1\nAB=2\n", "AB"), text("2"));
    assert_eq!(read_env_value("  A=  \n", "A"), text(""));
    assert_eq!(read_env_value("A\nA =1", "A"), None);
    assert_eq!(read_env_value("", "A"), None);
    assert_eq!(read_cookie("a:b:c\n"), pair("a", "b:c"));
    assert_eq!(read_cookie("abc"), None);
}

#[test]
fn cookies_lie_in_the_data_directory_of_the_chain() {
    assert_eq!(cookie_path("/home/u", Network::Bitcoin), "/home/u/.bitcoin/.cookie");
    assert_eq!(cookie_path("/home/u", Network::Testnet), "/home/u/.bitcoin/testnet3/.cookie");
    assert_eq!(cookie_path("/home/u", Network::Testnet4), "/home/u/.bitcoin/testnet4/.cookie");
    assert_eq!(cookie_path("/home/u", Network::Signet), "/home/u/.bitcoin/signet/.cookie");
    assert_eq!(cookie_path("/home/u", Network::Regtest), "/home/u/.bitcoin/regtest/.cookie");
}

#[test]
fn nameless_nodes_are_not_announced() {
    let none: Vec<String> = Vec::new();
    let some = vec!["1.2.3.4:9735".to_string()];
    let mut name = [0u8; 32];
    assert!(!should_announce(&name, &none, &vec![true]));
    assert!(should_announce(&name, &some, &vec![false, true]));
    assert!(!should_announce(&name, &some, &vec![false]));
    name[31] = 1;
    assert!(should_announce(&name, &none, &vec![true]));
    assert!(!should_announce(&name, &none, &vec![]));
}

#[test]
fn files_are_kept_apart() {
    let files = [
        DataFile::KeysSeed,
        DataFile::NetworkGraph,
        DataFile::Scorer,
        DataFile::Manager,
        DataFile::InboundPayments,
        DataFile::OutboundPayments,
    ];
    let dir = data_dir("/tmp/alice");
    for (i, a) in files.iter().enumerate() {
        assert!(data_path(&dir, *a).starts_with("/tmp/alice/.ldk/"));
        for (j, b) in files.iter().enumerate() {
            assert_eq!(data_path(&dir, *a) == data_path(&dir, *b), i == j);
        }
    }
}

#[test]
fn only_test_networks_are_supported() {
    for (name, network) in [
        ("testnet", Network::Testnet),
        ("regtest", Network::Regtest),
        ("signet", Network::Signet),
    ] {
        let line = format!("u:p@127.0.0.1:18443 /tmp/alice 9735 {}", name);
        assert_eq!(parse_startup_args(&words(&line), true).unwrap().network, network);
    }
    let refused = parse_startup_args(&words("u:p@127.0.0.1:18443 /tmp/alice 9735 bitcoin"), true);
    assert_eq!(refused.unwrap_err(), StartupError::BadNetwork);
    let default = parse_startup_args(&words("u:p@127.0.0.1:18443 /tmp/alice"), false);
    assert_eq!(default.unwrap().network, Network::Testnet);
}

#[test]
fn every_handshake_has_its_port() {
    let flags = |line: &str| parse_startup_args(&words(line), true).unwrap().flags;
    assert_eq!(listeners(9735, &flags("h:1 d")), vec![(9735, false)]);
    assert_eq!(
        listeners(9735, &flags("h:1 d --pq-listen-port=9736")),
        vec![(9735, false), (9736, true)]
    );
}
