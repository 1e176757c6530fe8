//! The exact argument sets each run mode launches the node binary with, and
//! the error descriptions.

use nodekeeper::args::in_place_testnet_args;
use nodekeeper::args::init_args;
use nodekeeper::args::no_peers_start_args;
use nodekeeper::args::sync_start_args;
use nodekeeper::error::LifecycleError;
use nodekeeper::text::trim_bytes;

#[test]
fn init_argument_set() {
    let args = init_args("/home/user/.osmosisd");
    assert_eq!(
        args,
        vec!["init", "test", "--chain-id", "edgenet", "--home", "/home/user/.osmosisd"]
    );
}

#[test]
fn sync_argument_set() {
    assert_eq!(sync_start_args("/n"), vec!["start", "--home", "/n"]);
}

#[test]
fn peer_isolation_argument_set() {
    assert_eq!(
        no_peers_start_args("/n"),
        vec![
            "start",
            "--home",
            "/n",
            "--p2p.persistent_peers",
            "",
            "--p2p.seeds",
            "",
            "--rpc.unsafe",
            "--grpc.enable",
            "--grpc-web.enable"
        ]
    );
}

#[test]
fn testnet_argument_set_without_upgrade() {
    assert_eq!(
        in_place_testnet_args("/n", None),
        vec![
            "in-place-testnet",
            "edgenet",
            "osmo12smx2wdlyttvyzvzg54y2vnqwq2qjateuf7thj",
            "--home",
            "/n"
        ]
    );
}

#[test]
fn testnet_argument_set_with_upgrade() {
    assert_eq!(
        in_place_testnet_args("/n", Some("v30")),
        vec![
            "in-place-testnet",
            "edgenet",
            "osmo12smx2wdlyttvyzvzg54y2vnqwq2qjateuf7thj",
            "--home",
            "/n",
            "--trigger-testnet-upgrade",
            "v30"
        ]
    );
}

#[test]
fn trim_bytes_edges() {
    assert_eq!(trim_bytes(b"").as_slice(), b"");
    assert_eq!(trim_bytes(b"   ").as_slice(), b"");
    assert_eq!(trim_bytes(b"a b").as_slice(), b"a b");
    assert_eq!(trim_bytes(b"\t a b \r\n").as_slice(), b"a b");
}

#[test]
fn error_descriptions_name_the_stage() {
    assert_eq!(LifecycleError::Spawn.describe(), "spawn failure");
    assert_eq!(LifecycleError::Network.describe(), "network failure");
    assert_eq!(LifecycleError::Protocol.describe(), "protocol failure");
    assert_eq!(LifecycleError::Format.describe(), "format failure");
    assert_eq!(LifecycleError::Io.describe(), "io failure");
    assert_eq!(LifecycleError::Callback.describe(), "callback failure");
    assert_eq!(LifecycleError::NotFound.describe(), "backup source not found");
}
