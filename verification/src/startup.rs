//! How the node starts: what its command line says, where it keeps its data, and how it is set
//! up.

use crate::ldk::{is_socket_address, socket_address};
use crate::network::Network;
use crate::payments::{array32, to_array32};
use crate::peers::any_announced;
use crate::text::{
    after_first, before_first, chars_of, decimal, decimal_text, parse_u16, string_of, text2, text3,
    text5, text_is, texts, u16_of,
};
use vstd::prelude::*;
use vstd::string::*;
use vstd::utf8::encode_utf8;

verus! {

/// The line when the chain backend is on another network than the node, if it is.
pub open spec fn chain_mismatch(network: Network, chain: Seq<char>) -> Option<Seq<char>> {
    if chain == network.chain() {
        None
    } else {
        Some(
            "Chain argument ("@ + network.name() + ") didn't match bitcoind chain ("@ + chain
                + ")"@,
        )
    }
}

/// Checks that the chain backend is on the network of the node.
pub fn check_chain(network: Network, chain: &String) -> (r: Option<String>)
    ensures
        r is Some == chain_mismatch(network, chain@) is Some,
        r is Some ==> r->0@ == chain_mismatch(network, chain@)->0,
{
    if *chain == network.chain_name() {
        None
    } else {
        Some(
            text5(
                "Chain argument (",
                network.to_text().as_str(),
                ") didn't match bitcoind chain (",
                chain.as_str(),
                ")",
            ),
        )
    }
}

/// The files that the node keeps.
#[derive(Clone, Copy, Debug, PartialEq, Eq, Structural)]
pub enum DataFile {
    /// The seed of the node's keys.
    KeysSeed,
    /// The network graph.
    NetworkGraph,
    /// The scores of channels.
    Scorer,
    /// The channels.
    Manager,
    /// The payments to the node.
    InboundPayments,
    /// The payments of the node.
    OutboundPayments,
}

impl DataFile {
    /// The name of the file.
    pub open spec fn name(self) -> Seq<char> {
        match self {
            DataFile::KeysSeed => "keys_seed"@,
            DataFile::NetworkGraph => "network_graph"@,
            DataFile::Scorer => "scorer"@,
            DataFile::Manager => "manager"@,
            DataFile::InboundPayments => "inbound_payments"@,
            DataFile::OutboundPayments => "outbound_payments"@,
        }
    }

    /// Writes the name of the file.
    pub fn file_name(self) -> (r: String)
        ensures
            r@ == self.name(),
    {
        match self {
            DataFile::KeysSeed => "keys_seed".to_owned(),
            DataFile::NetworkGraph => "network_graph".to_owned(),
            DataFile::Scorer => "scorer".to_owned(),
            DataFile::Manager => "manager".to_owned(),
            DataFile::InboundPayments => "inbound_payments".to_owned(),
            DataFile::OutboundPayments => "outbound_payments".to_owned(),
        }
    }
}

/// The directory of the node's data, below the one that the operator names.
pub open spec fn data_dir_text(storage_dir: Seq<char>) -> Seq<char> {
    storage_dir + "/.ldk"@
}

/// Where a file of the node is kept, given the directory of the node's data.
pub open spec fn data_path_text(data_dir: Seq<char>, file: DataFile) -> Seq<char> {
    data_dir + "/"@ + file.name()
}

/// Names the directory of the node's data.
pub fn data_dir(storage_dir: &str) -> (r: String)
    ensures
        r@ == data_dir_text(storage_dir@),
{
    text2(storage_dir, "/.ldk")
}

/// Says where a file of the node is kept.
pub fn data_path(data_dir: &str, file: DataFile) -> (r: String)
    ensures
        r@ == data_path_text(data_dir@, file),
{
    text3(data_dir, "/", file.file_name().as_str())
}

/// Everything that the node keeps lies in its data directory, and no two files share a place.
pub proof fn law_files_are_kept_apart(storage_dir: Seq<char>, a: DataFile, b: DataFile)
    ensures
        data_path_text(data_dir_text(storage_dir), a).take((storage_dir.len() + 6) as int) == storage_dir
            + "/.ldk/"@,
        a != b ==> data_path_text(data_dir_text(storage_dir), a) != data_path_text(
            data_dir_text(storage_dir),
            b,
        ),
{
    reveal_strlit("/.ldk/");
    reveal_strlit("/.ldk");
    reveal_strlit("/");
    reveal_strlit("keys_seed");
    reveal_strlit("network_graph");
    reveal_strlit("scorer");
    reveal_strlit("manager");
    reveal_strlit("inbound_payments");
    reveal_strlit("outbound_payments");
    assert(data_path_text(data_dir_text(storage_dir), a).take((storage_dir.len() + 6) as int)
        =~= storage_dir + "/.ldk/"@);
    let dir = data_dir_text(storage_dir);
    assert(data_path_text(dir, a).len() == dir.len() + 1 + a.name().len());
    assert(data_path_text(dir, b).len() == dir.len() + 1 + b.name().len());
    assert(a != b ==> a.name().len() != b.name().len());
}

/// The seed that a file holds, if it holds exactly one.
pub open spec fn keys_seed(bytes: Seq<u8>) -> Option<[u8; 32]> {
    if bytes.len() == 32 {
        Some(array32(bytes))
    } else {
        None
    }
}

/// Reads the seed of the node's keys.
pub fn read_keys_seed(bytes: &[u8]) -> (r: Option<[u8; 32]>)
    ensures
        r == keys_seed(bytes@),
        r is Some ==> r->0@ == bytes@,
{
    if bytes.len() == 32 {
        assert(bytes@.take(32) =~= bytes@);
        Some(to_array32(bytes))
    } else {
        None
    }
}

/// What the node does about the seed of its keys.
pub enum SeedPlan {
    /// It uses the seed that it has kept.
    Use([u8; 32]),
    /// It draws a seed and keeps it.
    Create,
    /// What it has kept is no seed: it cannot start.
    Corrupt,
}

/// What the node does about the seed of its keys, given what it has kept, if anything.
pub open spec fn seed_plan(kept: Option<Seq<u8>>) -> SeedPlan {
    match kept {
        None => SeedPlan::Create,
        Some(bytes) => match keys_seed(bytes) {
            Some(seed) => SeedPlan::Use(seed),
            None => SeedPlan::Corrupt,
        },
    }
}

/// Decides what the node does about the seed of its keys.
pub fn plan_seed(kept: &Option<Vec<u8>>) -> (r: SeedPlan)
    ensures
        r == seed_plan(
            match *kept {
                Some(bytes) => Some(bytes@),
                None => None,
            },
        ),
{
    match kept {
        None => SeedPlan::Create,
        Some(bytes) => match read_keys_seed(bytes.as_slice()) {
            Some(seed) => SeedPlan::Use(seed),
            None => SeedPlan::Corrupt,
        },
    }
}

/// What became of reading something that the node may have kept.
#[derive(Clone, Copy, Debug, PartialEq, Eq, Structural)]
pub enum StoreRead {
    /// It was there.
    Found,
    /// There was none.
    NotFound,
    /// It could not be read.
    Failed,
}

/// How the sweeper of outputs starts.
#[derive(Clone, Copy, Debug, PartialEq, Eq, Structural)]
pub enum SweeperStart {
    /// From what was kept.
    Restore,
    /// Anew, from the best block of the channels.
    Fresh,
    /// Not at all: outputs would be forgotten.
    Abort,
}

/// How the sweeper of outputs starts, given what became of reading what was kept of it.
pub open spec fn sweeper_start(read: StoreRead) -> SweeperStart {
    match read {
        StoreRead::Found => SweeperStart::Restore,
        StoreRead::NotFound => SweeperStart::Fresh,
        StoreRead::Failed => SweeperStart::Abort,
    }
}

/// Decides how the sweeper of outputs starts.
pub fn plan_sweeper(read: StoreRead) -> (r: SweeperStart)
    ensures
        r == sweeper_start(read),
{
    match read {
        StoreRead::Found => SweeperStart::Restore,
        StoreRead::NotFound => SweeperStart::Fresh,
        StoreRead::Failed => SweeperStart::Abort,
    }
}

/// What the node does when it ends.
#[derive(Clone, Copy, Debug, PartialEq, Eq, Structural)]
pub enum ShutdownStep {
    /// Accept and dial no more connections.
    StopConnecting,
    /// Disconnect every peer.
    DisconnectPeers,
    /// Write the channels to disk one last time.
    PersistManager,
    /// End with an error.
    Abort,
    /// Tell the background processing to end.
    SignalBackground,
    /// Wait for the background processing to end.
    AwaitBackground,
}

/// What the node does when it ends, in order, given whether the background processing has broken
/// down and whether it listens for the signal to end.
pub open spec fn shutdown(background_failed: bool, background_listens: bool) -> Seq<ShutdownStep> {
    seq![ShutdownStep::StopConnecting, ShutdownStep::DisconnectPeers] + (if background_failed {
        seq![ShutdownStep::PersistManager, ShutdownStep::Abort]
    } else if background_listens {
        seq![ShutdownStep::SignalBackground, ShutdownStep::AwaitBackground]
    } else {
        seq![]
    })
}

/// Decides what the node does when it ends.
pub fn plan_shutdown(background_failed: bool, background_listens: bool) -> (r: Vec<ShutdownStep>)
    ensures
        r@ == shutdown(background_failed, background_listens),
{
    let mut steps: Vec<ShutdownStep> = Vec::new();
    steps.push(ShutdownStep::StopConnecting);
    steps.push(ShutdownStep::DisconnectPeers);
    if background_failed {
        steps.push(ShutdownStep::PersistManager);
        steps.push(ShutdownStep::Abort);
    } else if background_listens {
        steps.push(ShutdownStep::SignalBackground);
        steps.push(ShutdownStep::AwaitBackground);
    }
    assert(steps@ =~= shutdown(background_failed, background_listens));
    steps
}

/// Before the background processing ends, and before the channels are written one last time, no
/// connection can come about any more and every peer has been disconnected. So nothing changes
/// the channels after they were last written.
pub proof fn law_peers_are_gone_before_the_end(
    background_failed: bool,
    background_listens: bool,
    i: int,
)
    requires
        0 <= i < shutdown(background_failed, background_listens).len(),
    ensures
        ({
            let steps = shutdown(background_failed, background_listens);
            &&& steps[0] == ShutdownStep::StopConnecting
            &&& steps[1] == ShutdownStep::DisconnectPeers
            &&& (steps[i] == ShutdownStep::PersistManager || steps[i]
                == ShutdownStep::SignalBackground || steps[i] == ShutdownStep::AwaitBackground)
                ==> i >= 2
        }),
{
}

/// The address that the node listens at for peers: a port on every interface.
pub open spec fn listen_text(port: u16) -> Seq<char> {
    "[::]:"@ + decimal_text(port as nat)
}

/// Writes the address that the node listens at for peers.
pub fn listen_address(port: u16) -> (r: String)
    ensures
        r@ == listen_text(port),
{
    text2("[::]:", decimal(port as u64).as_str())
}

/// The ports that the node listens at, each with whether it takes the post-quantum handshake: the
/// port for peers, and behind it the one that the flags name for the handshake, if they name one.
pub open spec fn listening_ports(port: u16, flags: Flags) -> Seq<(u16, bool)> {
    match flags.pq_listen_port {
        Some(pq_port) => seq![(port, false), (pq_port, true)],
        None => seq![(port, false)],
    }
}

/// Lists the ports that the node listens at.
pub fn listeners(port: u16, flags: &Flags) -> (r: Vec<(u16, bool)>)
    ensures
        r@ == listening_ports(port, *flags),
{
    let mut ports: Vec<(u16, bool)> = Vec::new();
    ports.push((port, false));
    match flags.pq_listen_port {
        Some(pq_port) => {
            ports.push((pq_port, true));
        },
        None => {},
    }
    assert(ports@ =~= listening_ports(port, *flags));
    ports
}

/// How many seconds after its start the node first announces itself.
pub const FIRST_ANNOUNCEMENT_SECS: u64 = 60;

/// How many seconds pass between two announcements of the node.
pub const ANNOUNCEMENT_INTERVAL_SECS: u64 = 3600;

/// Whether the node announces itself when the time for it has come. It does not where it was
/// given neither a name nor an address to announce, nor where none of its channels is announced,
/// since its peers would drop the announcement.
pub open spec fn announcement_due(
    name: Seq<u8>,
    addresses: Seq<Seq<char>>,
    announced: Seq<bool>,
) -> bool {
    &&& addresses.len() > 0 || exists|i: int| 0 <= i < name.len() && name[i] != 0
    &&& announced.contains(true)
}

/// Decides whether the node announces itself when the time for it has come.
pub fn should_announce(name: &[u8; 32], addresses: &Vec<String>, announced: &Vec<bool>) -> (r: bool)
    ensures
        r == announcement_due(name@, texts(addresses@), announced@),
{
    if addresses.len() > 0 {
        return any_announced(announced);
    }
    let mut i: usize = 0;
    while i < 32
        invariant
            i <= 32,
            addresses@.len() == 0,
            forall|k: int| 0 <= k < i ==> #[trigger] name@[k] == 0,
        decreases 32 - i,
    {
        if name[i] != 0 {
            assert(name@[i as int] != 0);
            return any_announced(announced);
        }
        i = i + 1;
    }
    false
}

/// How many seconds pass between two looks at the connections to channel peers.
pub const RECONNECT_INTERVAL_SECS: u64 = 1;

/// The colour that the node announces.
pub const NODE_RGB: [u8; 3] = [0, 0, 0];

/// How many seconds a payment is retried.
pub const PAYMENT_RETRY_SECS: u64 = 10;

/// How many blocks the last hop of a payment without an invoice is given.
pub const KEYSEND_FINAL_CLTV_DELTA: u32 = 40;

/// How many updates of a channel are kept before they are written out as a whole.
pub const MAXIMUM_PENDING_UPDATES: u64 = 1000;

/// How the channels of the node are set up.
#[derive(Clone, Copy, Debug, PartialEq, Eq, Structural)]
pub struct NodeConfig {
    /// Whether a channel has to be announced, or not, as the node would have it.
    pub force_announced_channel_preference: bool,
    /// Whether anchor outputs are asked for.
    pub negotiate_anchors_zero_fee_htlc_tx: bool,
    /// Whether payments are forwarded over channels that are not announced.
    pub accept_forwards_to_priv_channels: bool,
    /// Whether payments have to be protected all the way.
    pub require_post_quantum_payments: bool,
    /// Whether blinded paths are built with post-quantum keys.
    pub build_post_quantum_blinded_paths: bool,
    /// Whether payments to the node have to be protected.
    pub require_post_quantum_inbound: bool,
}

/// What the command line says.
#[derive(Debug)]
pub struct LdkUserInfo {
    /// The name and the password for the chain backend, where they are given.
    pub bitcoind_rpc_auth: Option<(String, String)>,
    /// The host of the chain backend.
    pub bitcoind_rpc_host: String,
    /// The port of the chain backend.
    pub bitcoind_rpc_port: u16,
    /// The directory for the node's data.
    pub ldk_storage_dir_path: String,
    /// The port that the node listens at for peers.
    pub ldk_peer_listening_port: u16,
    /// The network of the node.
    pub network: Network,
    /// The name that the node announces, padded with zeros.
    pub ldk_announced_node_name: [u8; 32],
    /// The addresses that the node announces.
    pub ldk_announced_listen_addr: Vec<String>,
    /// What the flags say.
    pub flags: Flags,
}

/// What the flags on the command line say.
#[derive(Clone, Copy, Debug, PartialEq, Eq, Structural)]
pub struct Flags {
    /// Whether lines about gossip are written to the log.
    pub gossip_stats: bool,
    /// The port that the node listens at for post-quantum connections.
    pub pq_listen_port: Option<u16>,
    /// Whether payments have to be protected all the way.
    pub pq_require_payments: bool,
    /// Whether payments to the node have to be protected.
    pub pq_require_inbound: bool,
    /// Whether blinded paths are built with post-quantum keys.
    pub pq_blinded_paths: bool,
}

/// How the channels of a node are set up, given its flags: without a preference on announced
/// channels, with anchors, forwarding over channels that are not announced, and with the
/// protection that the flags ask for.
pub open spec fn node_config(flags: Flags) -> NodeConfig {
    NodeConfig {
        force_announced_channel_preference: false,
        negotiate_anchors_zero_fee_htlc_tx: true,
        accept_forwards_to_priv_channels: true,
        require_post_quantum_payments: flags.pq_require_payments,
        build_post_quantum_blinded_paths: flags.pq_blinded_paths,
        require_post_quantum_inbound: flags.pq_require_inbound,
    }
}

/// Sets up the channels of a node.
pub fn configure(flags: &Flags) -> (r: NodeConfig)
    ensures
        r == node_config(*flags),
{
    NodeConfig {
        force_announced_channel_preference: false,
        negotiate_anchors_zero_fee_htlc_tx: true,
        accept_forwards_to_priv_channels: true,
        require_post_quantum_payments: flags.pq_require_payments,
        build_post_quantum_blinded_paths: flags.pq_blinded_paths,
        require_post_quantum_inbound: flags.pq_require_inbound,
    }
}

/// Why a command line cannot be used.
#[derive(Clone, Copy, Debug, PartialEq, Eq, Structural)]
pub enum StartupError {
    /// A flag is unknown, or unknown to a node without the post-quantum extensions.
    UnknownFlag,
    /// The port for post-quantum connections is none.
    BadPqPort,
    /// The chain backend or the directory is missing.
    MissingArguments,
    /// The name and the password of the chain backend are not separated.
    BadRpcAuth,
    /// The host and the port of the chain backend are not separated.
    BadRpcPath,
    /// The port of the chain backend is none.
    BadRpcPort,
    /// The network is none that the node supports.
    BadNetwork,
    /// The name of the node is too long.
    LongNodeName,
    /// What is to be announced is no address.
    BadListenAddress,
}

impl StartupError {
    /// What the operator is told.
    pub open spec fn text(self) -> Seq<char> {
        match self {
            StartupError::UnknownFlag => "ERROR: unknown flag"@,
            StartupError::BadPqPort => "ERROR: --pq-listen-port requires a port"@,
            StartupError::MissingArguments =>
                "ERROR: at least 2 arguments are required: `[<bitcoind-rpc-username>:<bitcoind-rpc-password>@]<bitcoind-rpc-host>:<bitcoind-rpc-port> <ldk_storage_directory_path> [<ldk-peer-listening-port>] [<bitcoin-network>] [<announced-node-name>] [<announced-listen-addr>...] [flags]`"@,
            StartupError::BadRpcAuth => "ERROR: bad bitcoind RPC username/password combo provided"@,
            StartupError::BadRpcPath => "ERROR: bad bitcoind RPC path provided"@,
            StartupError::BadRpcPort => "ERROR: bad bitcoind RPC port provided"@,
            StartupError::BadNetwork =>
                "ERROR: unsupported network provided. Options are: `regtest`, `testnet`, and `signet`"@,
            StartupError::LongNodeName => "ERROR: node alias can not be longer than 32 bytes"@,
            StartupError::BadListenAddress =>
                "ERROR: failed to parse announced-listen-addr into an address"@,
        }
    }

    /// Says what is wrong.
    pub fn message(self) -> (r: String)
        ensures
            r@ == self.text(),
    {
        match self {
            StartupError::UnknownFlag => "ERROR: unknown flag".to_owned(),
            StartupError::BadPqPort => "ERROR: --pq-listen-port requires a port".to_owned(),
            StartupError::MissingArguments =>
                "ERROR: at least 2 arguments are required: `[<bitcoind-rpc-username>:<bitcoind-rpc-password>@]<bitcoind-rpc-host>:<bitcoind-rpc-port> <ldk_storage_directory_path> [<ldk-peer-listening-port>] [<bitcoin-network>] [<announced-node-name>] [<announced-listen-addr>...] [flags]`".to_owned(),
            StartupError::BadRpcAuth =>
                "ERROR: bad bitcoind RPC username/password combo provided".to_owned(),
            StartupError::BadRpcPath => "ERROR: bad bitcoind RPC path provided".to_owned(),
            StartupError::BadRpcPort => "ERROR: bad bitcoind RPC port provided".to_owned(),
            StartupError::BadNetwork =>
                "ERROR: unsupported network provided. Options are: `regtest`, `testnet`, and `signet`".to_owned(),
            StartupError::LongNodeName =>
                "ERROR: node alias can not be longer than 32 bytes".to_owned(),
            StartupError::BadListenAddress =>
                "ERROR: failed to parse announced-listen-addr into an address".to_owned(),
        }
    }
}

/// Whether an argument is a flag.
pub open spec fn is_flag(arg: Seq<char>) -> bool {
    arg.len() >= 2 && arg[0] == '-' && arg[1] == '-'
}

/// The arguments that are flags, in order.
pub open spec fn flags_in(args: Seq<Seq<char>>) -> Seq<Seq<char>>
    decreases args.len(),
{
    if args.len() == 0 {
        seq![]
    } else if is_flag(args.last()) {
        flags_in(args.drop_last()).push(args.last())
    } else {
        flags_in(args.drop_last())
    }
}

/// The arguments that are not flags, in order.
pub open spec fn positionals_in(args: Seq<Seq<char>>) -> Seq<Seq<char>>
    decreases args.len(),
{
    if args.len() == 0 {
        seq![]
    } else if is_flag(args.last()) {
        positionals_in(args.drop_last())
    } else {
        positionals_in(args.drop_last()).push(args.last())
    }
}

/// What no flags say.
pub open spec fn no_flags() -> Flags {
    Flags {
        gossip_stats: false,
        pq_listen_port: None,
        pq_require_payments: false,
        pq_require_inbound: false,
        pq_blinded_paths: false,
    }
}

/// What a flag adds to what the flags before it say. The post-quantum flags are flags only where
/// the node speaks the post-quantum extensions.
pub open spec fn with_flag(flags: Flags, flag: Seq<char>, post_quantum: bool) -> Result<
    Flags,
    StartupError,
> {
    if flag == "--gossip-stats"@ {
        Ok(Flags { gossip_stats: true, ..flags })
    } else if !post_quantum {
        Err(StartupError::UnknownFlag)
    } else if flag == "--pq-require-payments"@ {
        Ok(Flags { pq_require_payments: true, ..flags })
    } else if flag == "--pq-require-inbound"@ {
        Ok(Flags { pq_require_inbound: true, ..flags })
    } else if flag == "--pq-blinded-paths"@ {
        Ok(Flags { pq_blinded_paths: true, ..flags })
    } else if before_first(flag, '=') == "--pq-listen-port"@ && after_first(flag, '=') is Some {
        match u16_of(after_first(flag, '=')->0) {
            Ok(port) => Ok(Flags { pq_listen_port: Some(port), ..flags }),
            Err(_) => Err(StartupError::BadPqPort),
        }
    } else {
        Err(StartupError::UnknownFlag)
    }
}

/// What flags say; the first that says nothing decides the error.
pub open spec fn read_flags(flags: Seq<Seq<char>>, post_quantum: bool) -> Result<
    Flags,
    StartupError,
>
    decreases flags.len(),
{
    if flags.len() == 0 {
        Ok(no_flags())
    } else {
        match read_flags(flags.drop_last(), post_quantum) {
            Ok(before) => with_flag(before, flags.last(), post_quantum),
            Err(e) => Err(e),
        }
    }
}

/// Where the character last stands in the text, if it stands anywhere.
pub open spec fn last_index(s: Seq<char>, c: char) -> Option<int>
    decreases s.len(),
{
    if s.len() == 0 {
        None
    } else if s.last() == c {
        Some(s.len() - 1)
    } else {
        last_index(s.drop_last(), c)
    }
}

/// The port that the node listens at unless the operator names one.
pub const DEFAULT_PEER_PORT: u16 = 9735;

/// The port for peers that the third argument names, if it names one.
pub open spec fn named_port(positionals: Seq<Seq<char>>) -> Option<u16> {
    if positionals.len() >= 3 && u16_of(positionals[2]) is Ok {
        Some(u16_of(positionals[2])->Ok_0)
    } else {
        None
    }
}

/// The network that an argument names, if the node supports it.
pub open spec fn network_named(arg: Seq<char>) -> Option<Network> {
    if arg == "testnet"@ {
        Some(Network::Testnet)
    } else if arg == "regtest"@ {
        Some(Network::Regtest)
    } else if arg == "signet"@ {
        Some(Network::Signet)
    } else {
        None
    }
}

/// A name padded with zeros to 32 bytes.
pub open spec fn padded_name(name: Seq<u8>) -> [u8; 32] {
    array32(name + Seq::new((32 - name.len()) as nat, |i: int| 0u8))
}

/// What is said of the chain backend: the name and the password where there are any, the host
/// and the port.
pub open spec fn rpc_info(arg: Seq<char>) -> Result<
    (Option<(Seq<char>, Seq<char>)>, Seq<char>, u16),
    StartupError,
> {
    let path = match last_index(arg, '@') {
        Some(i) => arg.skip(i + 1),
        None => arg,
    };
    let auth = match last_index(arg, '@') {
        Some(i) => Some(arg.take(i)),
        None => None,
    };
    if auth is Some && after_first(auth->0, ':') is None {
        Err(StartupError::BadRpcAuth)
    } else if after_first(path, ':') is None || after_first(after_first(path, ':')->0, ':') is Some {
        Err(StartupError::BadRpcPath)
    } else {
        match u16_of(after_first(path, ':')->0) {
            Err(_) => Err(StartupError::BadRpcPort),
            Ok(port) => Ok(
                (
                    (match auth {
                        Some(a) => Some((before_first(a, ':'), after_first(a, ':')->0)),
                        None => None,
                    }),
                    before_first(path, ':'),
                    port,
                ),
            ),
        }
    }
}

/// What the command line says, in terms of texts.
pub struct UserInfoView {
    /// The name and the password for the chain backend, where they are given.
    pub bitcoind_rpc_auth: Option<(Seq<char>, Seq<char>)>,
    /// The host of the chain backend.
    pub bitcoind_rpc_host: Seq<char>,
    /// The port of the chain backend.
    pub bitcoind_rpc_port: u16,
    /// The directory for the node's data.
    pub ldk_storage_dir_path: Seq<char>,
    /// The port that the node listens at for peers.
    pub ldk_peer_listening_port: u16,
    /// The network of the node.
    pub network: Network,
    /// The name that the node announces, padded with zeros.
    pub ldk_announced_node_name: [u8; 32],
    /// The addresses that the node announces.
    pub ldk_announced_listen_addr: Seq<Seq<char>>,
    /// What the flags say.
    pub flags: Flags,
}

impl View for LdkUserInfo {
    type V = UserInfoView;

    open spec fn view(&self) -> UserInfoView {
        UserInfoView {
            bitcoind_rpc_auth: match self.bitcoind_rpc_auth {
                Some(auth) => Some((auth.0@, auth.1@)),
                None => None,
            },
            bitcoind_rpc_host: self.bitcoind_rpc_host@,
            bitcoind_rpc_port: self.bitcoind_rpc_port,
            ldk_storage_dir_path: self.ldk_storage_dir_path@,
            ldk_peer_listening_port: self.ldk_peer_listening_port,
            network: self.network,
            ldk_announced_node_name: self.ldk_announced_node_name,
            ldk_announced_listen_addr: texts(self.ldk_announced_listen_addr@),
            flags: self.flags,
        }
    }
}

/// The arguments behind the port for peers, or behind the directory where no port is named: the
/// network, the name of the node, and the addresses that it announces.
pub open spec fn later_arguments(positionals: Seq<Seq<char>>) -> Seq<Seq<char>> {
    positionals.skip(
        if named_port(positionals) is Some {
            3
        } else {
            2
        },
    )
}

/// The addresses that the node announces, among the arguments behind the port for peers.
pub open spec fn announced_in(later: Seq<Seq<char>>) -> Seq<Seq<char>> {
    if later.len() >= 2 {
        later.skip(2)
    } else {
        seq![]
    }
}

/// Whether every text is an address.
pub open spec fn all_addresses(list: Seq<Seq<char>>) -> bool {
    forall|i: int| 0 <= i < list.len() ==> socket_address(#[trigger] list[i])
}

/// What the arguments other than flags say, given what the flags say.
pub open spec fn read_positionals(positionals: Seq<Seq<char>>, flags: Flags) -> Result<
    UserInfoView,
    StartupError,
> {
    if positionals.len() < 2 {
        Err(StartupError::MissingArguments)
    } else {
        let later = later_arguments(positionals);
        match rpc_info(positionals[0]) {
            Err(e) => Err(e),
            Ok(rpc) => if later.len() >= 1 && network_named(later[0]) is None {
                Err(StartupError::BadNetwork)
            } else if later.len() >= 2 && encode_utf8(later[1]).len() > 32 {
                Err(StartupError::LongNodeName)
            } else if !all_addresses(announced_in(later)) {
                Err(StartupError::BadListenAddress)
            } else {
                Ok(
                    UserInfoView {
                        bitcoind_rpc_auth: rpc.0,
                        bitcoind_rpc_host: rpc.1,
                        bitcoind_rpc_port: rpc.2,
                        ldk_storage_dir_path: positionals[1],
                        ldk_peer_listening_port: match named_port(positionals) {
                            Some(port) => port,
                            None => DEFAULT_PEER_PORT,
                        },
                        network: if later.len() >= 1 {
                            network_named(later[0])->0
                        } else {
                            Network::Testnet
                        },
                        ldk_announced_node_name: padded_name(
                            (if later.len() >= 2 {
                                encode_utf8(later[1])
                            } else {
                                seq![]
                            }),
                        ),
                        ldk_announced_listen_addr: announced_in(later),
                        flags,
                    },
                )
            },
        }
    }
}

/// What a command line says. Flags can stand anywhere among the other arguments.
pub open spec fn command_line(args: Seq<Seq<char>>, post_quantum: bool) -> Result<
    UserInfoView,
    StartupError,
> {
    match read_flags(flags_in(args), post_quantum) {
        Err(e) => Err(e),
        Ok(flags) => read_positionals(positionals_in(args), flags),
    }
}

/// Whether an argument is a flag.
fn looks_like_flag(arg: &str) -> (r: bool)
    ensures
        r == is_flag(arg@),
{
    let cs: Vec<char> = chars_of(arg);
    cs.len() >= 2 && cs[0] == '-' && cs[1] == '-'
}

/// Splits a text at the first occurrence of a character.
pub(crate) fn split_once(s: &str, c: char) -> (r: (String, Option<String>))
    ensures
        r.0@ == before_first(s@, c),
        r.1 is Some == after_first(s@, c) is Some,
        r.1 is Some ==> r.1->0@ == after_first(s@, c)->0,
{
    let cs: Vec<char> = chars_of(s);
    let at: usize = crate::text::find_from(&cs, 0, c);
    assert(cs@.skip(0) =~= cs@);
    let head: String = string_of(&cs, 0, at);
    assert(head@ =~= before_first(s@, c));
    if at == cs.len() {
        return (head, None);
    }
    let tail: String = string_of(&cs, at + 1, cs.len());
    assert(tail@ =~= after_first(s@, c)->0);
    (head, Some(tail))
}

/// Splits a text at the last occurrence of a character: the part behind it, or all of the text,
/// and the part before it.
fn split_last(s: &str, c: char) -> (r: (String, Option<String>))
    ensures
        match last_index(s@, c) {
            Some(i) => r.0@ == s@.skip(i + 1) && r.1 is Some && r.1->0@ == s@.take(i),
            None => r.0@ == s@ && r.1 is None,
        },
{
    let cs: Vec<char> = chars_of(s);
    let mut n: usize = cs.len();
    assert(cs@.take(n as int) =~= cs@);
    while n > 0
        invariant
            n <= cs@.len(),
            cs@ == s@,
            last_index(s@, c) == last_index(cs@.take(n as int), c),
        decreases n,
    {
        assert(cs@.take(n as int).drop_last() =~= cs@.take(n - 1));
        assert(cs@.take(n as int).last() == cs@[n - 1]);
        if cs[n - 1] == c {
            let tail: String = string_of(&cs, n, cs.len());
            let head: String = string_of(&cs, 0, n - 1);
            assert(tail@ =~= s@.skip(n as int));
            assert(head@ =~= s@.take(n - 1));
            return (tail, Some(head));
        }
        n = n - 1;
    }
    let all: String = string_of(&cs, 0, cs.len());
    assert(all@ =~= s@);
    (all, None)
}

/// Reads one flag.
fn read_flag(flags: Flags, flag: &String, post_quantum: bool) -> (r: Result<Flags, StartupError>)
    ensures
        r == with_flag(flags, flag@, post_quantum),
{
    if text_is(flag, "--gossip-stats") {
        return Ok(Flags { gossip_stats: true, ..flags });
    }
    if !post_quantum {
        return Err(StartupError::UnknownFlag);
    }
    if text_is(flag, "--pq-require-payments") {
        return Ok(Flags { pq_require_payments: true, ..flags });
    }
    if text_is(flag, "--pq-require-inbound") {
        return Ok(Flags { pq_require_inbound: true, ..flags });
    }
    if text_is(flag, "--pq-blinded-paths") {
        return Ok(Flags { pq_blinded_paths: true, ..flags });
    }
    let parts: (String, Option<String>) = split_once(flag.as_str(), '=');
    match parts.1 {
        Some(port) => {
            if text_is(&parts.0, "--pq-listen-port") {
                match parse_u16(port.as_str()) {
                    Ok(port) => Ok(Flags { pq_listen_port: Some(port), ..flags }),
                    Err(_) => Err(StartupError::BadPqPort),
                }
            } else {
                Err(StartupError::UnknownFlag)
            }
        },
        None => Err(StartupError::UnknownFlag),
    }
}

/// An error in the first flags is the error of all of them.
proof fn lemma_flags_error(flags: Seq<Seq<char>>, n: int, post_quantum: bool)
    requires
        0 <= n <= flags.len(),
        read_flags(flags.take(n), post_quantum) is Err,
    ensures
        read_flags(flags, post_quantum) == read_flags(flags.take(n), post_quantum),
    decreases flags.len() - n,
{
    if n < flags.len() {
        assert(flags.take(n + 1).drop_last() =~= flags.take(n));
        lemma_flags_error(flags, n + 1, post_quantum);
    } else {
        assert(flags.take(n) =~= flags);
    }
}

/// Reads the flags.
fn read_all_flags(flags: &Vec<String>, post_quantum: bool) -> (r: Result<Flags, StartupError>)
    ensures
        r == read_flags(texts(flags@), post_quantum),
{
    let mut read: Flags = Flags {
        gossip_stats: false,
        pq_listen_port: None,
        pq_require_payments: false,
        pq_require_inbound: false,
        pq_blinded_paths: false,
    };
    let ghost all = texts(flags@);
    let mut i: usize = 0;
    assert(all.take(0) =~= Seq::<Seq<char>>::empty());
    while i < flags.len()
        invariant
            i <= flags@.len(),
            all == texts(flags@),
            read_flags(all.take(i as int), post_quantum) == Ok::<Flags, StartupError>(read),
        decreases flags.len() - i,
    {
        proof {
            assert(all.take(i + 1).drop_last() =~= all.take(i as int));
            assert(all.take(i + 1).last() == flags@[i as int]@);
        }
        match read_flag(read, &flags[i], post_quantum) {
            Ok(next) => {
                read = next;
            },
            Err(e) => {
                proof {
                    lemma_flags_error(all, i + 1, post_quantum);
                }
                return Err(e);
            },
        }
        i = i + 1;
    }
    assert(all.take(i as int) =~= all);
    Ok(read)
}

/// What an exact split of the chain backend says.
struct RpcInfo {
    auth: Option<(String, String)>,
    host: String,
    port: u16,
}

impl RpcInfo {
    spec fn parts(self) -> (Option<(Seq<char>, Seq<char>)>, Seq<char>, u16) {
        (
            (match self.auth {
                Some(auth) => Some((auth.0@, auth.1@)),
                None => None,
            }),
            self.host@,
            self.port,
        )
    }
}

/// Reads what is said of the chain backend.
fn read_rpc_info(arg: &str) -> (r: Result<RpcInfo, StartupError>)
    ensures
        match r {
            Ok(info) => rpc_info(arg@) == Ok::<_, StartupError>(info.parts()),
            Err(e) => rpc_info(arg@) == Err::<
                (Option<(Seq<char>, Seq<char>)>, Seq<char>, u16),
                _,
            >(e),
        },
{
    let parts: (String, Option<String>) = split_last(arg, '@');
    let auth: Option<(String, String)> = match parts.1 {
        None => None,
        Some(auth) => {
            let pair: (String, Option<String>) = split_once(auth.as_str(), ':');
            match pair.1 {
                None => return Err(StartupError::BadRpcAuth),
                Some(password) => Some((pair.0, password)),
            }
        },
    };
    let path: (String, Option<String>) = split_once(parts.0.as_str(), ':');
    let port: String = match path.1 {
        None => return Err(StartupError::BadRpcPath),
        Some(port) => port,
    };
    if split_once(port.as_str(), ':').1.is_some() {
        return Err(StartupError::BadRpcPath);
    }
    match parse_u16(port.as_str()) {
        Err(_) => Err(StartupError::BadRpcPort),
        Ok(port) => Ok(RpcInfo { auth, host: path.0, port }),
    }
}

/// Reads the name of a network.
fn read_network(arg: &String) -> (r: Option<Network>)
    ensures
        r == network_named(arg@),
{
    if text_is(arg, "testnet") {
        Some(Network::Testnet)
    } else if text_is(arg, "regtest") {
        Some(Network::Regtest)
    } else if text_is(arg, "signet") {
        Some(Network::Signet)
    } else {
        None
    }
}

/// Pads a name with zeros.
fn pad_name(name: &[u8]) -> (r: [u8; 32])
    requires
        name@.len() <= 32,
    ensures
        r == padded_name(name@),
        r@.take(name@.len() as int) == name@,
{
    let mut bytes: Vec<u8> = Vec::new();
    let mut i: usize = 0;
    let ghost all = name@ + Seq::new((32 - name@.len()) as nat, |i: int| 0u8);
    while i < 32
        invariant
            i <= 32,
            name@.len() <= 32,
            all == name@ + Seq::new((32 - name@.len()) as nat, |i: int| 0u8),
            bytes@ =~= all.take(i as int),
        decreases 32 - i,
    {
        if i < name.len() {
            bytes.push(name[i]);
        } else {
            bytes.push(0u8);
        }
        i = i + 1;
    }
    assert(bytes@ =~= all);
    assert(bytes@.take(32) =~= all);
    let r: [u8; 32] = to_array32(bytes.as_slice());
    assert(r@.take(name@.len() as int) =~= name@);
    r
}

/// Splits the arguments into flags and others.
fn sort_arguments(args: &Vec<String>) -> (r: (Vec<String>, Vec<String>))
    ensures
        texts(r.0@) == flags_in(texts(args@)),
        texts(r.1@) == positionals_in(texts(args@)),
{
    let mut flags: Vec<String> = Vec::new();
    let mut others: Vec<String> = Vec::new();
    let ghost all = texts(args@);
    let mut i: usize = 0;
    proof {
        assert(all.take(0) =~= Seq::<Seq<char>>::empty());
        assert(texts(flags@) =~= Seq::<Seq<char>>::empty());
        assert(texts(others@) =~= Seq::<Seq<char>>::empty());
    }
    while i < args.len()
        invariant
            i <= args@.len(),
            all == texts(args@),
            texts(flags@) == flags_in(all.take(i as int)),
            texts(others@) == positionals_in(all.take(i as int)),
        decreases args.len() - i,
    {
        let ghost f = texts(flags@);
        let ghost p = texts(others@);
        proof {
            assert(all.take(i + 1).drop_last() =~= all.take(i as int));
            assert(all.take(i + 1).last() == args@[i as int]@);
        }
        let arg: String = args[i].clone();
        if looks_like_flag(arg.as_str()) {
            flags.push(arg);
            assert(texts(flags@) =~= f.push(args@[i as int]@));
        } else {
            others.push(arg);
            assert(texts(others@) =~= p.push(args@[i as int]@));
        }
        i = i + 1;
    }
    assert(all.take(i as int) =~= all);
    (flags, others)
}

/// Copies the texts of a list from a position on.
pub(crate) fn copy_from(list: &Vec<String>, from: usize) -> (r: Vec<String>)
    requires
        from <= list@.len(),
    ensures
        texts(r@) == texts(list@).skip(from as int),
{
    let mut out: Vec<String> = Vec::new();
    let mut i: usize = from;
    assert(texts(out@) =~= texts(list@).subrange(from as int, from as int));
    while i < list.len()
        invariant
            from <= i <= list@.len(),
            texts(out@) == texts(list@).subrange(from as int, i as int),
        decreases list.len() - i,
    {
        let ghost before = texts(out@);
        let text: String = list[i].clone();
        out.push(text);
        i = i + 1;
        assert(texts(out@) =~= before.push(list@[i - 1]@));
        assert(texts(out@) =~= texts(list@).subrange(from as int, i as int));
    }
    assert(texts(out@) =~= texts(list@).skip(from as int));
    out
}

/// Whether every text is an address.
fn are_addresses(list: &Vec<String>) -> (r: bool)
    ensures
        r == all_addresses(texts(list@)),
{
    let mut i: usize = 0;
    while i < list.len()
        invariant
            i <= list@.len(),
            forall|k: int| 0 <= k < i ==> socket_address(#[trigger] texts(list@)[k]),
        decreases list.len() - i,
    {
        if !is_socket_address(list[i].as_str()) {
            assert(!socket_address(texts(list@)[i as int]));
            return false;
        }
        i = i + 1;
    }
    true
}

/// Reads the arguments other than flags.
fn read_arguments(args: &Vec<String>, flags: Flags) -> (r: Result<LdkUserInfo, StartupError>)
    ensures
        match r {
            Ok(info) => read_positionals(texts(args@), flags) == Ok::<_, StartupError>(info@),
            Err(e) => read_positionals(texts(args@), flags) == Err::<UserInfoView, _>(e),
        },
{
    if args.len() < 2 {
        return Err(StartupError::MissingArguments);
    }
    let rpc: RpcInfo = match read_rpc_info(args[0].as_str()) {
        Err(e) => return Err(e),
        Ok(rpc) => rpc,
    };
    let named: Option<u16> = if args.len() >= 3 {
        match parse_u16(args[2].as_str()) {
            Ok(port) => Some(port),
            Err(_) => None,
        }
    } else {
        None
    };
    let from: usize = if named.is_some() {
        3
    } else {
        2
    };
    let later: Vec<String> = copy_from(args, from);
    assert(texts(later@) == later_arguments(texts(args@)));
    assert(texts(later@).len() == later@.len());
    let network: Network = if later.len() >= 1 {
        match read_network(&later[0]) {
            None => return Err(StartupError::BadNetwork),
            Some(network) => network,
        }
    } else {
        Network::Testnet
    };
    let name: [u8; 32] = if later.len() >= 2 {
        let bytes: &[u8] = later[1].as_str().as_bytes();
        if bytes.len() > 32 {
            return Err(StartupError::LongNodeName);
        }
        pad_name(bytes)
    } else {
        let none: Vec<u8> = Vec::new();
        assert(none@ =~= seq![]);
        pad_name(none.as_slice())
    };
    let addresses: Vec<String> = if later.len() >= 2 {
        copy_from(&later, 2)
    } else {
        let none: Vec<String> = Vec::new();
        assert(texts(none@) =~= seq![]);
        none
    };
    if !are_addresses(&addresses) {
        return Err(StartupError::BadListenAddress);
    }
    Ok(
        LdkUserInfo {
            bitcoind_rpc_auth: rpc.auth,
            bitcoind_rpc_host: rpc.host,
            bitcoind_rpc_port: rpc.port,
            ldk_storage_dir_path: args[1].clone(),
            ldk_peer_listening_port: match named {
                Some(port) => port,
                None => DEFAULT_PEER_PORT,
            },
            network,
            ldk_announced_node_name: name,
            ldk_announced_listen_addr: addresses,
            flags,
        },
    )
}

/// Reads a command line, without the name of the program.
pub fn parse_startup_args(args: &Vec<String>, post_quantum: bool) -> (r: Result<
    LdkUserInfo,
    StartupError,
>)
    ensures
        match r {
            Ok(info) => command_line(texts(args@), post_quantum) == Ok::<_, StartupError>(info@),
            Err(e) => command_line(texts(args@), post_quantum) == Err::<UserInfoView, _>(e),
        },
{
    let sorted: (Vec<String>, Vec<String>) = sort_arguments(args);
    match read_all_flags(&sorted.0, post_quantum) {
        Err(e) => Err(e),
        Ok(flags) => read_arguments(&sorted.1, flags),
    }
}

/// Flags and other arguments of two command lines, one behind the other.
proof fn lemma_sorted(a: Seq<Seq<char>>, b: Seq<Seq<char>>)
    ensures
        flags_in(a + b) == flags_in(a) + flags_in(b),
        positionals_in(a + b) == positionals_in(a) + positionals_in(b),
    decreases b.len(),
{
    if b.len() == 0 {
        assert(a + b =~= a);
        assert(flags_in(a) + flags_in(b) =~= flags_in(a));
        assert(positionals_in(a) + positionals_in(b) =~= positionals_in(a));
    } else {
        lemma_sorted(a, b.drop_last());
        assert((a + b).drop_last() =~= a + b.drop_last());
        assert(flags_in(a + b) =~= flags_in(a) + flags_in(b));
        assert(positionals_in(a + b) =~= positionals_in(a) + positionals_in(b));
    }
}

/// Flags can stand anywhere: a flag says the same in front of the other arguments, behind them,
/// and at any place between them.
pub proof fn law_flags_stand_anywhere(
    before: Seq<Seq<char>>,
    flag: Seq<char>,
    after: Seq<Seq<char>>,
    post_quantum: bool,
)
    requires
        is_flag(flag),
        flags_in(before) == Seq::<Seq<char>>::empty(),
    ensures
        command_line(before + seq![flag] + after, post_quantum) == command_line(
            seq![flag] + before + after,
            post_quantum,
        ),
{
    let one = seq![flag];
    lemma_sorted(before + one, after);
    lemma_sorted(before, one);
    lemma_sorted(one + before, after);
    lemma_sorted(one, before);
    reveal_with_fuel(flags_in, 2);
    reveal_with_fuel(positionals_in, 2);
    assert(flags_in(one) =~= one);
    assert(positionals_in(one) =~= Seq::<Seq<char>>::empty());
    assert(flags_in(before + one) =~= one);
    assert(flags_in(one + before) =~= one);
    assert(positionals_in(before + one) =~= positionals_in(one + before));
}

/// A node without the post-quantum extensions rejects every flag but the one for gossip, wherever
/// it stands.
pub proof fn law_vanilla_rejects_post_quantum_flags(args: Seq<Seq<char>>, i: int)
    requires
        0 <= i < args.len(),
        is_flag(args[i]),
        args[i] != "--gossip-stats"@,
    ensures
        command_line(args, false) == Err::<UserInfoView, _>(StartupError::UnknownFlag),
{
    lemma_rejected(args, i);
}

/// The flag that is rejected is among the flags.
proof fn lemma_rejected(args: Seq<Seq<char>>, i: int)
    requires
        0 <= i < args.len(),
        is_flag(args[i]),
        args[i] != "--gossip-stats"@,
    ensures
        read_flags(flags_in(args), false) == Err::<Flags, _>(StartupError::UnknownFlag),
    decreases args.len(),
{
    let first = args.drop_last();
    if i < args.len() - 1 {
        lemma_rejected(first, i);
    } else {
        lemma_vanilla_flags(flags_in(first));
    }
    if is_flag(args.last()) {
        assert(flags_in(args).drop_last() =~= flags_in(first));
    }
}

/// Without the post-quantum extensions there is one error only.
proof fn lemma_vanilla_flags(flags: Seq<Seq<char>>)
    ensures
        read_flags(flags, false) matches Err(e) ==> e == StartupError::UnknownFlag,
    decreases flags.len(),
{
    if flags.len() > 0 {
        lemma_vanilla_flags(flags.drop_last());
    }
}

/// Without flags for it, nothing of the post-quantum protection is switched on.
pub proof fn law_vanilla_config_is_classical(args: Seq<Seq<char>>)
    ensures
        command_line(args, false) matches Ok(info) ==> {
            let config = node_config(info.flags);
            &&& info.flags.pq_listen_port is None
            &&& !config.require_post_quantum_payments
            &&& !config.build_post_quantum_blinded_paths
            &&& !config.require_post_quantum_inbound
        },
{
    lemma_classical_flags(flags_in(args));
}

/// The flags of a node without the post-quantum extensions switch nothing of them on.
proof fn lemma_classical_flags(flags: Seq<Seq<char>>)
    ensures
        read_flags(flags, false) matches Ok(read) ==> read.pq_listen_port is None
            && !read.pq_require_payments && !read.pq_require_inbound && !read.pq_blinded_paths,
    decreases flags.len(),
{
    if flags.len() > 0 {
        lemma_classical_flags(flags.drop_last());
    }
}

/// The node runs on the test networks that it supports, whatever the command line says.
pub proof fn law_only_test_networks(args: Seq<Seq<char>>, post_quantum: bool)
    ensures
        command_line(args, post_quantum) matches Ok(info) ==> info.network == Network::Testnet
            || info.network == Network::Regtest || info.network == Network::Signet,
{
}

} // verus!
