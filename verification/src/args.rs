//! The mode-specific argument sets the node binary is launched with.

use vstd::prelude::*;

verus! {

/// The argument vector of the node's initialization step, which creates the
/// base config layout under the home directory.
pub fn init_args(home: &str) -> (r: Vec<String>)
    ensures
        r@.len() == 6,
        r@[0]@ == "init"@,
        r@[1]@ == "test"@,
        r@[2]@ == "--chain-id"@,
        r@[3]@ == "edgenet"@,
        r@[4]@ == "--home"@,
        r@[5]@ == home@,
{
    let mut r: Vec<String> = Vec::new();
    r.push("init".to_owned());
    r.push("test".to_owned());
    r.push("--chain-id".to_owned());
    r.push("edgenet".to_owned());
    r.push("--home".to_owned());
    r.push(home.to_owned());
    r
}

/// The argument vector of a plain start, syncing against the live network.
pub fn sync_start_args(home: &str) -> (r: Vec<String>)
    ensures
        r@.len() == 3,
        r@[0]@ == "start"@,
        r@[1]@ == "--home"@,
        r@[2]@ == home@,
{
    let mut r: Vec<String> = Vec::new();
    r.push("start".to_owned());
    r.push("--home".to_owned());
    r.push(home.to_owned());
    r
}

/// The argument vector of a peer-isolated start: empty persistent-peers and
/// seeds lists, unsafe RPC enabled, gRPC and gRPC-web enabled.
pub fn no_peers_start_args(home: &str) -> (r: Vec<String>)
    ensures
        r@.len() == 10,
        r@[0]@ == "start"@,
        r@[1]@ == "--home"@,
        r@[2]@ == home@,
        r@[3]@ == "--p2p.persistent_peers"@,
        r@[4]@ == ""@,
        r@[5]@ == "--p2p.seeds"@,
        r@[6]@ == ""@,
        r@[7]@ == "--rpc.unsafe"@,
        r@[8]@ == "--grpc.enable"@,
        r@[9]@ == "--grpc-web.enable"@,
{
    let mut r: Vec<String> = Vec::new();
    r.push("start".to_owned());
    r.push("--home".to_owned());
    r.push(home.to_owned());
    r.push("--p2p.persistent_peers".to_owned());
    r.push("".to_owned());
    r.push("--p2p.seeds".to_owned());
    r.push("".to_owned());
    r.push("--rpc.unsafe".to_owned());
    r.push("--grpc.enable".to_owned());
    r.push("--grpc-web.enable".to_owned());
    r
}

/// The argument vector of an in-place-testnet start, with the fixed test
/// chain id and test address; an upgrade handler, when configured, adds the
/// upgrade-trigger flag carrying its name.
pub fn in_place_testnet_args(home: &str, upgrade_handler: Option<&str>) -> (r: Vec<String>)
    ensures
        r@.len() >= 5,
        r@[0]@ == "in-place-testnet"@,
        r@[1]@ == "edgenet"@,
        r@[2]@ == "osmo12smx2wdlyttvyzvzg54y2vnqwq2qjateuf7thj"@,
        r@[3]@ == "--home"@,
        r@[4]@ == home@,
        match upgrade_handler {
            Some(h) => r@.len() == 7 && r@[5]@ == "--trigger-testnet-upgrade"@ && r@[6]@ == h@,
            None => r@.len() == 5,
        },
{
    let mut r: Vec<String> = Vec::new();
    r.push("in-place-testnet".to_owned());
    r.push("edgenet".to_owned());
    r.push("osmo12smx2wdlyttvyzvzg54y2vnqwq2qjateuf7thj".to_owned());
    r.push("--home".to_owned());
    r.push(home.to_owned());
    match upgrade_handler {
        Some(h) => {
            r.push("--trigger-testnet-upgrade".to_owned());
            r.push(h.to_owned());
        },
        None => {},
    }
    r
}

} // verus!
