//! What the command line and the files of a node make of it.

use crate::credentials::{chosen_auth, cookie_path_text, env_value};
use crate::ldk::socket_address;
use crate::network::Network;
use crate::payments::{law_bytes_fill_an_array, lemma_array32};
use crate::peers::{CONNECT_POLL_MILLIS, CONNECT_TIMEOUT_SECS};
use crate::startup::{
    all_addresses, announcement_due, chain_mismatch, command_line, data_dir_text, data_path_text,
    flags_in, is_flag, keys_seed, last_index, listen_text, listening_ports, node_config,
    positionals_in, read_flags, rpc_info, seed_plan, shutdown, sweeper_start, DataFile, Flags,
    SeedPlan, ShutdownStep, StartupError, StoreRead, SweeperStart, UserInfoView,
    ANNOUNCEMENT_INTERVAL_SECS, FIRST_ANNOUNCEMENT_SECS, MAXIMUM_PENDING_UPDATES,
    RECONNECT_INTERVAL_SECS,
};
use crate::text::{
    after_first, before_first, decimal_text, first_index, is_space, law_decimal_round_trip,
    leading_spaces, lemma_first_index, lemma_first_index_unique, trimmed, trimmed_end, u16_of,
    NumberError,
};
use crate::text_laws::{law_numbers_are_digits_only, law_texts_are_cut, law_texts_are_trimmed};
use vstd::prelude::*;
use vstd::string::*;
use vstd::utf8::encode_utf8;

verus! {

/// Whether an argument names a port for post-quantum connections.
pub open spec fn names_pq_port(arg: Seq<char>) -> bool {
    arg.len() >= 17 && arg.take(17) == "--pq-listen-port="@
}

/// The words for the flags are all different, and they are flags.
proof fn lemma_flag_words()
    ensures
        is_flag("--gossip-stats"@),
        is_flag("--pq-require-payments"@),
        is_flag("--pq-require-inbound"@),
        is_flag("--pq-blinded-paths"@),
        "--gossip-stats"@ != "--pq-require-payments"@,
        "--gossip-stats"@ != "--pq-require-inbound"@,
        "--gossip-stats"@ != "--pq-blinded-paths"@,
        "--pq-require-payments"@ != "--pq-require-inbound"@,
        "--pq-require-payments"@ != "--pq-blinded-paths"@,
        "--pq-require-inbound"@ != "--pq-blinded-paths"@,
        !names_pq_port("--gossip-stats"@),
        !names_pq_port("--pq-require-payments"@),
        !names_pq_port("--pq-require-inbound"@),
        !names_pq_port("--pq-blinded-paths"@),
{
    reveal_strlit("--gossip-stats");
    reveal_strlit("--pq-require-payments");
    reveal_strlit("--pq-require-inbound");
    reveal_strlit("--pq-blinded-paths");
    reveal_strlit("--pq-listen-port=");
    let port = "--pq-listen-port="@;
    let payments = "--pq-require-payments"@;
    let inbound = "--pq-require-inbound"@;
    let paths = "--pq-blinded-paths"@;
    assert("--gossip-stats"@.len() == 14);
    assert(payments.len() == 21);
    assert(inbound.len() == 20);
    assert(paths.len() == 18);
    assert(port[5] == 'l');
    assert(payments.take(17)[5] == 'r');
    assert(inbound.take(17)[5] == 'r');
    assert(paths.take(17)[5] == 'b');
}

/// How an argument that names a port is read.
proof fn lemma_pq_port(arg: Seq<char>)
    ensures
        names_pq_port(arg) <==> before_first(arg, '=') == "--pq-listen-port"@ && after_first(
            arg,
            '=',
        ) is Some,
        names_pq_port(arg) ==> after_first(arg, '=') == Some(arg.skip(17)),
        names_pq_port(arg) ==> is_flag(arg),
{
    let name = "--pq-listen-port"@;
    let lead = "--pq-listen-port="@;
    reveal_strlit("--pq-listen-port");
    reveal_strlit("--pq-listen-port=");
    assert(name.len() == 16);
    assert(lead.len() == 17);
    assert(lead =~= name.push('='));
    assert(forall|i: int| 0 <= i < 16 ==> #[trigger] name[i] != '=');
    lemma_first_index(arg, '=');
    if names_pq_port(arg) {
        assert forall|i: int| 0 <= i < 16 implies #[trigger] arg[i] != '=' by {
            assert(arg[i] == arg.take(17)[i]);
            assert(lead[i] == name[i]);
        }
        assert(arg[16] == arg.take(17)[16]);
        lemma_first_index_unique(arg, '=', 16);
        assert(arg.take(16) =~= name) by {
            assert(forall|i: int| 0 <= i < 16 ==> arg.take(16)[i] == arg.take(17)[i]);
        }
        assert(arg[0] == arg.take(17)[0] && arg[1] == arg.take(17)[1]);
    } else if before_first(arg, '=') == name && after_first(arg, '=') is Some {
        let n = first_index(arg, '=') as int;
        assert(arg.take(n).len() == 16);
        assert(arg.take(17) =~= lead) by {
            assert(forall|i: int| 0 <= i < 16 ==> arg.take(17)[i] == arg.take(n)[i]);
        }
    }
}

/// The port that the last of some arguments that name one names.
pub open spec fn last_pq_port(args: Seq<Seq<char>>, port: Option<u16>) -> bool {
    match port {
        Some(port) => exists|k: int|
            {
                &&& 0 <= k < args.len()
                &&& names_pq_port(#[trigger] args[k])
                &&& u16_of(args[k].skip(17)) == Ok::<u16, NumberError>(port)
                &&& forall|j: int| k < j < args.len() ==> !names_pq_port(#[trigger] args[j])
            },
        None => forall|j: int| 0 <= j < args.len() ==> !names_pq_port(#[trigger] args[j]),
    }
}

/// Whether flags say what the arguments ask for.
spec fn heeded(args: Seq<Seq<char>>, flags: Flags) -> bool {
    &&& flags.gossip_stats == args.contains("--gossip-stats"@)
    &&& flags.pq_require_payments == args.contains("--pq-require-payments"@)
    &&& flags.pq_require_inbound == args.contains("--pq-require-inbound"@)
    &&& flags.pq_blinded_paths == args.contains("--pq-blinded-paths"@)
    &&& last_pq_port(args, flags.pq_listen_port)
}

/// What stands in a list is its last element or stands before it.
proof fn lemma_contains_last(args: Seq<Seq<char>>, w: Seq<char>)
    requires
        args.len() > 0,
    ensures
        args.contains(w) == (args.drop_last().contains(w) || args.last() == w),
{
    let before = args.drop_last();
    assert(args[args.len() - 1] == args.last());
    if args.contains(w) && args.last() != w {
        let i = choose|i: int| 0 <= i < args.len() && args[i] == w;
        assert(before[i] == w);
    }
    if before.contains(w) {
        let i = choose|i: int| 0 <= i < before.len() && before[i] == w;
        assert(args[i] == w);
    }
}

/// The port that is named last counts.
proof fn lemma_last_port(args: Seq<Seq<char>>, before: Option<u16>)
    requires
        args.len() > 0,
        last_pq_port(args.drop_last(), before),
    ensures
        !names_pq_port(args.last()) ==> last_pq_port(args, before),
        names_pq_port(args.last()) ==> forall|port: u16|
            u16_of(args.last().skip(17)) == Ok::<u16, NumberError>(port)
                ==> #[trigger] last_pq_port(args, Some(port)),
{
    let first = args.drop_last();
    let n = args.len() - 1;
    assert(args[n] == args.last());
    assert(forall|j: int| 0 <= j < n ==> args[j] == first[j]);
    if !names_pq_port(args.last()) {
        match before {
            Some(port) => {
                let k = choose|k: int|
                    {
                        &&& 0 <= k < first.len()
                        &&& names_pq_port(#[trigger] first[k])
                        &&& u16_of(first[k].skip(17)) == Ok::<u16, NumberError>(port)
                        &&& forall|j: int|
                            k < j < first.len() ==> !names_pq_port(#[trigger] first[j])
                    };
                assert(args[k] == first[k]);
                assert forall|j: int| k < j < args.len() implies !names_pq_port(
                    #[trigger] args[j],
                ) by {
                    if j < n {
                        assert(first[j] == args[j]);
                    }
                }
            },
            None => {
                assert forall|j: int| 0 <= j < args.len() implies !names_pq_port(
                    #[trigger] args[j],
                ) by {
                    if j < n {
                        assert(first[j] == args[j]);
                    }
                }
            },
        }
    } else {
        assert forall|port: u16|
            u16_of(args.last().skip(17)) == Ok::<u16, NumberError>(
                port,
            ) implies #[trigger] last_pq_port(args, Some(port)) by {
            assert(names_pq_port(args[n]));
        }
    }
}

proof fn lemma_heeded(args: Seq<Seq<char>>, post_quantum: bool)
    ensures
        read_flags(flags_in(args), post_quantum) matches Ok(flags) ==> heeded(args, flags),
    decreases args.len(),
{
    lemma_flag_words();
    if args.len() > 0 && read_flags(flags_in(args), post_quantum) is Ok {
        let last = args.last();
        let first = args.drop_last();
        lemma_pq_port(last);
        lemma_contains_last(args, "--gossip-stats"@);
        lemma_contains_last(args, "--pq-require-payments"@);
        lemma_contains_last(args, "--pq-require-inbound"@);
        lemma_contains_last(args, "--pq-blinded-paths"@);
        if is_flag(last) {
            assert(flags_in(args).drop_last() =~= flags_in(first));
        }
        lemma_heeded(first, post_quantum);
        let before = read_flags(flags_in(first), post_quantum)->Ok_0;
        lemma_last_port(args, before.pq_listen_port);
    }
}

/// The flags do what they say, wherever they stand: each protection is switched on if and only if
/// its flag is among the arguments, the statistics are kept if and only if they are asked for, and
/// post-quantum connections are listened for at the port that is named last, if one is named.
pub proof fn law_flags_are_heeded(args: Seq<Seq<char>>, post_quantum: bool)
    ensures
        command_line(args, post_quantum) matches Ok(info) ==> {
            let config = node_config(info.flags);
            &&& config.require_post_quantum_inbound == args.contains("--pq-require-inbound"@)
            &&& config.require_post_quantum_payments == args.contains("--pq-require-payments"@)
            &&& config.build_post_quantum_blinded_paths == args.contains("--pq-blinded-paths"@)
            &&& config.negotiate_anchors_zero_fee_htlc_tx
            &&& config.accept_forwards_to_priv_channels
            &&& !config.force_announced_channel_preference
            &&& info.flags.gossip_stats == args.contains("--gossip-stats"@)
            &&& last_pq_port(args, info.flags.pq_listen_port)
        },
{
    lemma_heeded(args, post_quantum);
}

/// The node listens for plain connections at its port, and for post-quantum ones at the port that
/// a flag names, if one does.
pub proof fn law_ports_are_listened_at(
    args: Seq<Seq<char>>,
    post_quantum: bool,
    port: u16,
    protected: bool,
)
    ensures
        command_line(args, post_quantum) matches Ok(info) ==> (listening_ports(
            info.ldk_peer_listening_port,
            info.flags,
        ).contains((port, protected)) <==> if protected {
            last_pq_port(args, Some(port))
        } else {
            port == info.ldk_peer_listening_port
        }),
        command_line(args, post_quantum) matches Ok(info) ==> {
            let ports = listening_ports(info.ldk_peer_listening_port, info.flags);
            &&& 1 <= ports.len() <= 2
            &&& ports[0] == (info.ldk_peer_listening_port, false)
        },
        listen_text(port) == "[::]:"@ + decimal_text(port as nat),
{
    lemma_heeded(args, post_quantum);
    if command_line(args, post_quantum) is Ok {
        let info = command_line(args, post_quantum)->Ok_0;
        let ports = listening_ports(info.ldk_peer_listening_port, info.flags);
        assert(ports[0] == (info.ldk_peer_listening_port, false));
        if info.flags.pq_listen_port is Some {
            assert(ports[1] == (info.flags.pq_listen_port->0, true));
            let k = choose|k: int|
                {
                    &&& 0 <= k < args.len()
                    &&& names_pq_port(#[trigger] args[k])
                    &&& u16_of(args[k].skip(17)) == Ok::<u16, NumberError>(
                        info.flags.pq_listen_port->0,
                    )
                    &&& forall|j: int| k < j < args.len() ==> !names_pq_port(#[trigger] args[j])
                };
            if last_pq_port(args, Some(port)) {
                let m = choose|k: int|
                    {
                        &&& 0 <= k < args.len()
                        &&& names_pq_port(#[trigger] args[k])
                        &&& u16_of(args[k].skip(17)) == Ok::<u16, NumberError>(port)
                        &&& forall|j: int|
                            k < j < args.len() ==> !names_pq_port(#[trigger] args[j])
                    };
                assert(k == m);
            }
        }
    }
}

/// Without flags, all arguments are taken by their places.
proof fn lemma_no_flags(args: Seq<Seq<char>>)
    requires
        forall|i: int| 0 <= i < args.len() ==> !is_flag(#[trigger] args[i]),
    ensures
        flags_in(args) == Seq::<Seq<char>>::empty(),
        positionals_in(args) == args,
    decreases args.len(),
{
    if args.len() > 0 {
        let first = args.drop_last();
        assert forall|i: int| 0 <= i < first.len() implies !is_flag(#[trigger] first[i]) by {
            assert(first[i] == args[i]);
        }
        lemma_no_flags(first);
        assert(!is_flag(args[args.len() - 1]));
        assert(first.push(args.last()) =~= args);
    }
}

/// The arguments have their places: behind the chain backend and the directory stand a port, a
/// network, a name and addresses, of which the port can be left out alone and the others from the
/// end on.
pub proof fn law_arguments_have_their_places(args: Seq<Seq<char>>, post_quantum: bool)
    requires
        forall|i: int| 0 <= i < args.len() ==> !is_flag(#[trigger] args[i]),
    ensures
        args.len() < 2 ==> command_line(args, post_quantum) == Err::<UserInfoView, _>(
            StartupError::MissingArguments,
        ),
        command_line(args, post_quantum) matches Ok(info) ==> {
            let with_port = args.len() >= 3 && u16_of(args[2]) is Ok;
            let n: int = if with_port {
                3
            } else {
                2
            };
            let name = if args.len() > n + 1 {
                encode_utf8(args[n + 1])
            } else {
                seq![]
            };
            &&& rpc_info(args[0]) == Ok::<_, StartupError>(
                (info.bitcoind_rpc_auth, info.bitcoind_rpc_host, info.bitcoind_rpc_port),
            )
            &&& info.ldk_storage_dir_path == args[1]
            &&& with_port ==> u16_of(args[2]) == Ok::<u16, NumberError>(
                info.ldk_peer_listening_port,
            )
            &&& !with_port ==> info.ldk_peer_listening_port == 9735
            &&& args.len() > n ==> args[n] == info.network.name()
            &&& args.len() <= n ==> info.network == Network::Testnet
            &&& name.len() <= 32
            &&& info.ldk_announced_node_name@ == Seq::new(
                32,
                |i: int|
                    if i < name.len() {
                        name[i]
                    } else {
                        0u8
                    },
            )
            &&& info.ldk_announced_listen_addr == (if args.len() > n + 2 {
                args.skip(n + 2)
            } else {
                seq![]
            })
        },
{
    lemma_no_flags(args);
    if command_line(args, post_quantum) is Ok {
        let info = command_line(args, post_quantum)->Ok_0;
        let n: int = if args.len() >= 3 && u16_of(args[2]) is Ok {
            3
        } else {
            2
        };
        let later = args.skip(n);
        let name = if args.len() > n + 1 {
            encode_utf8(args[n + 1])
        } else {
            seq![]
        };
        let padded = name + Seq::new((32 - name.len()) as nat, |i: int| 0u8);
        if args.len() > n {
            assert(later[0] == args[n]);
        }
        if args.len() > n + 1 {
            assert(later[1] == args[n + 1]);
        }
        law_bytes_fill_an_array(padded);
        assert(info.ldk_announced_node_name@ =~= Seq::new(
            32,
            |i: int|
                if i < name.len() {
                    name[i]
                } else {
                    0u8
                },
        ));
        if args.len() >= n + 2 {
            assert(later.skip(2) =~= args.skip(n + 2));
            assert(args.len() == n + 2 ==> args.skip(n + 2) =~= seq![]);
        }
    }
}

/// A command line that names a backend, a directory, a port and a supported network is read.
pub proof fn law_plain_command_lines_are_read(
    args: Seq<Seq<char>>,
    post_quantum: bool,
    port: u16,
    network: Network,
)
    requires
        args.len() == 4,
        forall|i: int| 0 <= i < args.len() ==> !is_flag(#[trigger] args[i]),
        rpc_info(args[0]) is Ok,
        args[2] == decimal_text(port as nat),
        network == Network::Testnet || network == Network::Regtest || network == Network::Signet,
        args[3] == network.name(),
    ensures
        command_line(args, post_quantum) matches Ok(info) && info.ldk_peer_listening_port == port
            && info.network == network && info.ldk_storage_dir_path == args[1]
            && info.ldk_announced_listen_addr == Seq::<Seq<char>>::empty(),
{
    lemma_no_flags(args);
    law_decimal_round_trip(port as nat, u16::MAX as nat);
    reveal_strlit("testnet");
    reveal_strlit("regtest");
    reveal_strlit("signet");
    assert("testnet"@[0] != "regtest"@[0]);
    assert("signet"@.len() == 6 && "testnet"@.len() == 7 && "regtest"@.len() == 7);
    assert(args.skip(3)[0] == args[3]);
    assert(all_addresses(seq![]));
}

/// The character that a text was built around is its last one, if it is not behind.
proof fn lemma_last_index(s: Seq<char>, c: char, n: int)
    requires
        0 <= n < s.len(),
        s[n] == c,
        forall|i: int| n < i < s.len() ==> #[trigger] s[i] != c,
    ensures
        last_index(s, c) == Some(n),
    decreases s.len(),
{
    if n < s.len() - 1 {
        assert(s[s.len() - 1] != c);
        lemma_last_index(s.drop_last(), c, n);
    }
}

/// A character that a text does not hold has no place in it.
proof fn lemma_no_index(s: Seq<char>, c: char)
    requires
        forall|i: int| 0 <= i < s.len() ==> #[trigger] s[i] != c,
    ensures
        last_index(s, c) is None,
    decreases s.len(),
{
    if s.len() > 0 {
        assert(s[s.len() - 1] != c);
        lemma_no_index(s.drop_last(), c);
    }
}

/// A host, a colon and a port name that host and that port.
proof fn lemma_host_and_port(host: Seq<char>, port: u16)
    requires
        !host.contains(':'),
    ensures
        ({
            let path = host + ":"@ + decimal_text(port as nat);
            &&& before_first(path, ':') == host
            &&& after_first(path, ':') == Some(decimal_text(port as nat))
            &&& after_first(decimal_text(port as nat), ':') is None
            &&& u16_of(decimal_text(port as nat)) == Ok::<u16, NumberError>(port)
        }),
{
    let digits = decimal_text(port as nat);
    let path = host + ":"@ + digits;
    reveal_strlit(":");
    law_numbers_are_digits_only(port as nat);
    law_decimal_round_trip(port as nat, u16::MAX as nat);
    assert forall|i: int| 0 <= i < host.len() implies #[trigger] path[i] != ':' by {
        assert(path[i] == host[i]);
        assert(host.contains(host[i]));
    }
    lemma_first_index_unique(path, ':', host.len());
    assert(path.take(host.len() as int) =~= host);
    assert(path.skip(host.len() as int + 1) =~= digits);
    lemma_first_index_unique(digits, ':', digits.len());
}

/// A host and a port hold no `@`.
proof fn lemma_path_read(host: Seq<char>, port: u16)
    requires
        !host.contains('@'),
    ensures
        !(host + ":"@ + decimal_text(port as nat)).contains('@'),
        last_index(host + ":"@ + decimal_text(port as nat), '@') is None,
{
    let path = host + ":"@ + decimal_text(port as nat);
    reveal_strlit(":");
    law_numbers_are_digits_only(port as nat);
    assert forall|i: int| 0 <= i < path.len() implies #[trigger] path[i] != '@' by {
        if i < host.len() {
            assert(path[i] == host[i]);
            assert(host.contains(host[i]));
        } else if i > host.len() {
            assert(path[i] == decimal_text(port as nat)[i - host.len() - 1]);
        }
    }
    lemma_no_index(path, '@');
}

/// A name, a colon, a password and an `@` in front of a path are told apart.
proof fn lemma_auth_read(user: Seq<char>, password: Seq<char>, path: Seq<char>)
    requires
        !user.contains(':'),
        !path.contains('@'),
    ensures
        ({
            let auth = user + ":"@ + password;
            let whole = auth + "@"@ + path;
            let n = auth.len() as int;
            &&& last_index(whole, '@') == Some(n)
            &&& whole.skip(n + 1) == path
            &&& whole.take(n) == auth
            &&& before_first(auth, ':') == user
            &&& after_first(auth, ':') == Some(password)
        }),
{
    let none = Seq::<char>::empty();
    let auth = user + ":"@ + password;
    let whole = auth + "@"@ + path;
    reveal_strlit(":");
    reveal_strlit("@");
    let n = auth.len() as int;
    assert forall|i: int| n < i < whole.len() implies #[trigger] whole[i] != '@' by {
        assert(whole[i] == path[i - n - 1]);
        assert(path.contains(path[i - n - 1]));
    }
    lemma_last_index(whole, '@', n);
    assert(whole.skip(n + 1) =~= path);
    assert(whole.take(n) =~= auth);
    assert(auth =~= user.push(':') + password);
    law_texts_are_cut(user, ':', none, password);
}

/// The chain backend is found where the first argument says, with the name and the password that
/// stand in front of it, if there are any: the name ends at the first colon and the password at
/// the last `@`, whatever else it holds.
pub proof fn law_backend_is_read(
    user: Seq<char>,
    password: Seq<char>,
    host: Seq<char>,
    port: u16,
)
    requires
        !user.contains(':'),
        !host.contains(':'),
        !host.contains('@'),
    ensures
        rpc_info(host + ":"@ + decimal_text(port as nat)) == Ok::<_, StartupError>(
            (None::<(Seq<char>, Seq<char>)>, host, port),
        ),
        rpc_info(
            user + ":"@ + password + "@"@ + (host + ":"@ + decimal_text(port as nat)),
        ) == Ok::<_, StartupError>((Some((user, password)), host, port)),
{
    let path = host + ":"@ + decimal_text(port as nat);
    lemma_path_read(host, port);
    lemma_auth_read(user, password, path);
    lemma_host_and_port(host, port);
}

/// The node starts on the chain of its network and on no other, under the names that the chain
/// backend has for them.
pub proof fn law_chains_must_match(network: Network, chain: Seq<char>)
    ensures
        chain_mismatch(network, chain) is None <==> match network {
            Network::Bitcoin => chain == "main"@,
            Network::Testnet => chain == "test"@,
            Network::Testnet4 => chain == "test"@,
            Network::Signet => chain == "signet"@,
            Network::Regtest => chain == "regtest"@,
        },
{
}

/// A seed that was kept is used as it is; the node makes a new one only where none was kept, and
/// does not start over one that is damaged.
pub proof fn law_kept_seeds_are_used(kept: Option<Seq<u8>>, seed: [u8; 32])
    ensures
        seed_plan(kept) == SeedPlan::Use(seed) <==> kept == Some(seed@),
        seed_plan(kept) == SeedPlan::Create <==> kept is None,
        kept matches Some(bytes) ==> (keys_seed(bytes) == Some(seed) <==> bytes == seed@),
{
    lemma_array32(seed);
    if kept is Some && kept->0.len() == 32 {
        law_bytes_fill_an_array(kept->0);
    }
}

/// Outputs to sweep are forgotten only where there never were any.
pub proof fn law_outputs_are_not_forgotten(read: StoreRead)
    ensures
        sweeper_start(read) == SweeperStart::Fresh <==> read == StoreRead::NotFound,
        sweeper_start(read) == SweeperStart::Restore <==> read == StoreRead::Found,
{
}

/// On the way down the channels are written to disk by one of two: by the background task, if it
/// still listens, and else at once, where it has failed.
pub proof fn law_channels_are_kept_on_the_way_down(
    background_failed: bool,
    background_listens: bool,
)
    ensures
        ({
            let steps = shutdown(background_failed, background_listens);
            &&& steps.contains(ShutdownStep::PersistManager) <==> background_failed
            &&& steps.contains(ShutdownStep::Abort) <==> background_failed
            &&& steps.contains(ShutdownStep::AwaitBackground) <==> !background_failed
                && background_listens
            &&& steps.contains(ShutdownStep::SignalBackground) <==> !background_failed
                && background_listens
            &&& forall|i: int, j: int|
                0 <= i < steps.len() && 0 <= j < steps.len() && #[trigger] steps[i]
                    == ShutdownStep::SignalBackground && #[trigger] steps[j]
                    == ShutdownStep::AwaitBackground ==> i < j
            &&& forall|i: int, j: int|
                0 <= i < steps.len() && 0 <= j < steps.len() && #[trigger] steps[i]
                    == ShutdownStep::PersistManager && #[trigger] steps[j]
                    == ShutdownStep::Abort ==> i < j
        }),
{
    let steps = shutdown(background_failed, background_listens);
    if background_failed {
        assert(steps[2] == ShutdownStep::PersistManager);
        assert(steps[3] == ShutdownStep::Abort);
    } else if background_listens {
        assert(steps[2] == ShutdownStep::SignalBackground);
        assert(steps[3] == ShutdownStep::AwaitBackground);
    }
}

/// The credentials for the chain backend are those of the command line, else those of the
/// environment, else those of the file that stands for it, else those of the cookie; a name
/// without a password counts for nothing.
pub proof fn law_credentials_have_an_order(
    given: Option<(Seq<char>, Seq<char>)>,
    user: Option<Seq<char>>,
    password: Option<Seq<char>>,
    env_file: Option<Seq<char>>,
    cookie: Option<Seq<char>>,
)
    ensures
        ({
            let chosen = chosen_auth(given, user, password, env_file, cookie);
            let from_env = user is Some && password is Some;
            let from_file = env_file is Some && env_value(env_file->0, "RPC_USER"@) is Some
                && env_value(env_file->0, "RPC_PASSWORD"@) is Some;
            &&& given is Some ==> chosen == given
            &&& given is None && from_env ==> chosen == Some((user->0, password->0))
            &&& given is None && !from_env && from_file ==> chosen == Some(
                (
                    env_value(env_file->0, "RPC_USER"@)->0,
                    env_value(env_file->0, "RPC_PASSWORD"@)->0,
                ),
            )
            &&& given is None && !from_env && !from_file && cookie is None ==> chosen is None
            &&& given is None && !from_env && !from_file && cookie is Some ==> chosen
                == chosen_auth(None, None, None, None, cookie)
        }),
{
}

/// A line of the file of credentials gives a value its name, whatever spaces stand around it;
/// lines that give no name or another one are passed over, and the first that gives the name
/// counts.
pub proof fn law_credential_files_are_read(
    lead: Seq<char>,
    name: Seq<char>,
    value: Seq<char>,
    trail: Seq<char>,
    rest: Seq<char>,
)
    requires
        all_blank(lead),
        all_blank(trail),
        name.len() > 0,
        !is_space(name[0]),
        !name.contains('='),
        !name.contains('\n'),
        !value.contains('\n'),
        value.len() > 0 ==> !is_space(value.last()),
    ensures
        env_value(lead + (name + "="@ + value) + trail, name) == Some(value),
        env_value(lead + (name + "="@ + value) + trail + "\n"@ + rest, name) == Some(value),
        forall|other: Seq<char>|
            #![trigger env_value(rest, other)]
            other != name ==> env_value(
                lead + (name + "="@ + value) + trail + "\n"@ + rest,
                other,
            ) == env_value(rest, other),
{
    reveal_strlit("=");
    reveal_strlit("\n");
    let none = Seq::<char>::empty();
    let plain = name + "="@ + value;
    let line = lead + plain + trail;
    assert(plain =~= name.push('=') + value);
    assert(plain[0] == name[0]);
    assert(!is_space(plain.last())) by {
        if value.len() > 0 {
            assert(plain.last() == value.last());
        } else {
            assert(plain.last() == '=');
        }
    }
    law_texts_are_trimmed(lead, plain, trail);
    law_texts_are_cut(name, '=', none, value);
    assert(!line.contains('\n')) by {
        if line.contains('\n') {
            let i = choose|i: int| 0 <= i < line.len() && line[i] == '\n';
            let k = i - lead.len();
            if k < 0 {
                assert(lead[i] == '\n');
            } else if k < name.len() {
                assert(name[k] == '\n');
                assert(name.contains(name[k]));
            } else if k < plain.len() {
                if k > name.len() {
                    assert(value[k - name.len() - 1] == '\n');
                    assert(value.contains(value[k - name.len() - 1]));
                }
            } else {
                assert(trail[k - plain.len()] == '\n');
            }
        }
    }
    law_texts_are_cut(line, '\n', none, rest);
    assert(line + "\n"@ + rest =~= line.push('\n') + rest);
}

/// Whether a text is made of spaces that do not end a line.
pub open spec fn all_blank(s: Seq<char>) -> bool {
    forall|i: int| 0 <= i < s.len() ==> is_space(#[trigger] s[i]) && s[i] != '\n'
}

/// A line of the file of credentials without an equals sign gives nothing a name.
pub proof fn law_other_lines_are_passed_over(other: Seq<char>, name: Seq<char>, rest: Seq<char>)
    requires
        !other.contains('\n'),
        !other.contains('='),
    ensures
        env_value(other, name) is None,
        env_value(other + "\n"@ + rest, name) == env_value(rest, name),
{
    reveal_strlit("\n");
    let none = Seq::<char>::empty();
    law_texts_are_cut(other, '\n', none, rest);
    assert(other + "\n"@ + rest =~= other.push('\n') + rest);
    let kept = trimmed(other);
    lemma_trimmed_within(other);
    assert(!kept.contains('=')) by {
        if kept.contains('=') {
            let i = choose|i: int| 0 <= i < kept.len() && kept[i] == '=';
            assert(other.contains(kept[i]));
        }
    }
    law_texts_are_cut(kept, '=', none, none);
}

/// What is left of a text when it is trimmed stood in it.
proof fn lemma_trimmed_within(s: Seq<char>)
    ensures
        forall|i: int| 0 <= i < trimmed(s).len() ==> s.contains(#[trigger] trimmed(s)[i]),
{
    let t = s.skip(leading_spaces(s) as int);
    lemma_leading_within(s);
    lemma_end_within(t);
    assert forall|i: int| 0 <= i < trimmed(s).len() implies s.contains(
        #[trigger] trimmed(s)[i],
    ) by {
        assert(trimmed(s)[i] == t[i]);
        assert(t[i] == s[i + leading_spaces(s)]);
    }
}

proof fn lemma_leading_within(s: Seq<char>)
    ensures
        leading_spaces(s) <= s.len(),
    decreases s.len(),
{
    if s.len() > 0 {
        lemma_leading_within(s.drop_first());
    }
}

proof fn lemma_end_within(s: Seq<char>)
    ensures
        trimmed_end(s).len() <= s.len(),
        forall|i: int| 0 <= i < trimmed_end(s).len() ==> #[trigger] trimmed_end(s)[i] == s[i],
    decreases s.len(),
{
    if s.len() > 0 && is_space(s.last()) {
        lemma_end_within(s.drop_last());
    }
}

/// A cookie holds a name, a colon and a password, whatever spaces stand around them.
pub proof fn law_cookies_are_read(
    lead: Seq<char>,
    user: Seq<char>,
    password: Seq<char>,
    trail: Seq<char>,
)
    requires
        user.len() > 0,
        !is_space(user[0]),
        !user.contains(':'),
        password.len() > 0,
        !is_space(password.last()),
        forall|i: int| 0 <= i < lead.len() ==> is_space(#[trigger] lead[i]),
        forall|i: int| 0 <= i < trail.len() ==> is_space(#[trigger] trail[i]),
    ensures
        chosen_auth(None, None, None, None, Some(lead + (user + ":"@ + password) + trail)) == Some(
            (user, password),
        ),
{
    reveal_strlit(":");
    let none = Seq::<char>::empty();
    let text = user + ":"@ + password;
    assert(text =~= user.push(':') + password);
    assert(text[0] == user[0]);
    assert(text.last() == password.last());
    law_texts_are_trimmed(lead, text, trail);
    law_texts_are_cut(user, ':', none, password);
}

/// The cookie lies below the home directory, in the directory of the chain.
pub proof fn law_cookies_lie_with_their_chain(home: Seq<char>)
    ensures
        cookie_path_text(home, Network::Bitcoin) == home + "/.bitcoin/.cookie"@,
        cookie_path_text(home, Network::Testnet) == home + "/.bitcoin/testnet3/.cookie"@,
        cookie_path_text(home, Network::Testnet4) == home + "/.bitcoin/testnet4/.cookie"@,
        cookie_path_text(home, Network::Signet) == home + "/.bitcoin/signet/.cookie"@,
        cookie_path_text(home, Network::Regtest) == home + "/.bitcoin/regtest/.cookie"@,
{
    reveal_strlit("");
    reveal_strlit("/.bitcoin/");
    reveal_strlit(".cookie");
    reveal_strlit("testnet3/");
    reveal_strlit("testnet4/");
    reveal_strlit("signet/");
    reveal_strlit("regtest/");
    reveal_strlit("/.bitcoin/.cookie");
    reveal_strlit("/.bitcoin/testnet3/.cookie");
    reveal_strlit("/.bitcoin/testnet4/.cookie");
    reveal_strlit("/.bitcoin/signet/.cookie");
    reveal_strlit("/.bitcoin/regtest/.cookie");
    assert(cookie_path_text(home, Network::Bitcoin) =~= home + "/.bitcoin/.cookie"@);
    assert(cookie_path_text(home, Network::Testnet) =~= home + "/.bitcoin/testnet3/.cookie"@);
    assert(cookie_path_text(home, Network::Testnet4) =~= home + "/.bitcoin/testnet4/.cookie"@);
    assert(cookie_path_text(home, Network::Signet) =~= home + "/.bitcoin/signet/.cookie"@);
    assert(cookie_path_text(home, Network::Regtest) =~= home + "/.bitcoin/regtest/.cookie"@);
}

/// The node announces itself exactly if it has a name or an address to announce and an announced
/// channel to be found by.
pub proof fn law_nodes_announce_themselves(
    name: Seq<u8>,
    addresses: Seq<Seq<char>>,
    announced: Seq<bool>,
)
    ensures
        announcement_due(name, addresses, announced) <==> (addresses.len() > 0 || exists|i: int|
            0 <= i < name.len() && name[i] != 0) && (exists|i: int|
            0 <= i < announced.len() && announced[i]),
{
    if exists|i: int| 0 <= i < announced.len() && announced[i] {
        let i = choose|i: int| 0 <= i < announced.len() && announced[i];
        assert(announced.contains(true));
    }
}

/// The files of the node lie in a directory of their own, each under its own name.
pub proof fn law_files_have_their_names(storage_dir: Seq<char>)
    ensures
        ({
            let dir = data_dir_text(storage_dir);
            &&& data_path_text(dir, DataFile::KeysSeed) == storage_dir + "/.ldk/keys_seed"@
            &&& data_path_text(dir, DataFile::NetworkGraph) == storage_dir
                + "/.ldk/network_graph"@
            &&& data_path_text(dir, DataFile::Scorer) == storage_dir + "/.ldk/scorer"@
            &&& data_path_text(dir, DataFile::Manager) == storage_dir + "/.ldk/manager"@
            &&& data_path_text(dir, DataFile::InboundPayments) == storage_dir
                + "/.ldk/inbound_payments"@
            &&& data_path_text(dir, DataFile::OutboundPayments) == storage_dir
                + "/.ldk/outbound_payments"@
        }),
{
    let dir = data_dir_text(storage_dir);
    reveal_strlit("/.ldk");
    reveal_strlit("/");
    reveal_strlit("keys_seed");
    reveal_strlit("network_graph");
    reveal_strlit("scorer");
    reveal_strlit("manager");
    reveal_strlit("inbound_payments");
    reveal_strlit("outbound_payments");
    reveal_strlit("/.ldk/keys_seed");
    reveal_strlit("/.ldk/network_graph");
    reveal_strlit("/.ldk/scorer");
    reveal_strlit("/.ldk/manager");
    reveal_strlit("/.ldk/inbound_payments");
    reveal_strlit("/.ldk/outbound_payments");
    assert(data_path_text(dir, DataFile::KeysSeed) =~= storage_dir + "/.ldk/keys_seed"@);
    assert(data_path_text(dir, DataFile::NetworkGraph) =~= storage_dir + "/.ldk/network_graph"@);
    assert(data_path_text(dir, DataFile::Scorer) =~= storage_dir + "/.ldk/scorer"@);
    assert(data_path_text(dir, DataFile::Manager) =~= storage_dir + "/.ldk/manager"@);
    assert(data_path_text(dir, DataFile::InboundPayments) =~= storage_dir
        + "/.ldk/inbound_payments"@);
    assert(data_path_text(dir, DataFile::OutboundPayments) =~= storage_dir
        + "/.ldk/outbound_payments"@);
}

/// The node announces itself a minute after it has started and then every hour, looks after its
/// connections every second, and waits ten seconds for one to be opened, during which it looks for
/// the handshake a hundred times a second.
pub proof fn law_timings()
    ensures
        FIRST_ANNOUNCEMENT_SECS == 60,
        ANNOUNCEMENT_INTERVAL_SECS == 60 * 60,
        RECONNECT_INTERVAL_SECS == 1,
        CONNECT_TIMEOUT_SECS == 10,
        100 * CONNECT_POLL_MILLIS == 1000,
        MAXIMUM_PENDING_UPDATES == 1000,
{
}

/// The backend has to be named by a host and a port, with a name and a password if anything stands
/// in front of them.
#[verifier::rlimit(30)]
pub proof fn law_backends_are_refused(
    auth: Seq<char>,
    path: Seq<char>,
    host: Seq<char>,
    port: Seq<char>,
)
    requires
        !auth.contains(':'),
        !path.contains('@'),
        !path.contains(':'),
        !host.contains('@'),
        !host.contains(':'),
        !port.contains('@'),
        !port.contains(':'),
        u16_of(port) is Err,
    ensures
        rpc_info(auth + "@"@ + path) == Err::<
            (Option<(Seq<char>, Seq<char>)>, Seq<char>, u16),
            _,
        >(StartupError::BadRpcAuth),
        rpc_info(path) == Err::<(Option<(Seq<char>, Seq<char>)>, Seq<char>, u16), _>(
            StartupError::BadRpcPath,
        ),
        rpc_info(host + ":"@ + path + ":"@ + port) == Err::<
            (Option<(Seq<char>, Seq<char>)>, Seq<char>, u16),
            _,
        >(StartupError::BadRpcPath),
        rpc_info(host + ":"@ + port) == Err::<(Option<(Seq<char>, Seq<char>)>, Seq<char>, u16), _>(
            StartupError::BadRpcPort,
        ),
{
    reveal_strlit(":");
    reveal_strlit("@");
    let none = Seq::<char>::empty();
    let whole = auth + "@"@ + path;
    let n = auth.len() as int;
    assert forall|i: int| n < i < whole.len() implies #[trigger] whole[i] != '@' by {
        assert(whole[i] == path[i - n - 1]);
        assert(path.contains(path[i - n - 1]));
    }
    lemma_last_index(whole, '@', n);
    assert(whole.take(n) =~= auth);
    law_texts_are_cut(auth, ':', none, none);
    assert forall|i: int| 0 <= i < path.len() implies #[trigger] path[i] != '@' by {
        assert(path.contains(path[i]));
    }
    lemma_no_index(path, '@');
    law_texts_are_cut(path, ':', none, port);
    let three = host + ":"@ + path + ":"@ + port;
    assert(three =~= host.push(':') + (path.push(':') + port));
    law_texts_are_cut(host, ':', none, path.push(':') + port);
    assert forall|i: int| 0 <= i < three.len() implies #[trigger] three[i] != '@' by {
        lemma_pieces_lack(host, path, port, i);
    }
    lemma_no_index(three, '@');
    let two = host + ":"@ + port;
    assert(two =~= host.push(':') + port);
    law_texts_are_cut(host, ':', none, port);
    law_texts_are_cut(port, ':', none, none);
    assert forall|i: int| 0 <= i < two.len() implies #[trigger] two[i] != '@' by {
        if i < host.len() {
            assert(two[i] == host[i]);
            assert(host.contains(host[i]));
        } else if i > host.len() {
            assert(two[i] == port[i - host.len() - 1]);
            assert(port.contains(port[i - host.len() - 1]));
        }
    }
    lemma_no_index(two, '@');
}

proof fn lemma_pieces_lack(a: Seq<char>, b: Seq<char>, c: Seq<char>, i: int)
    requires
        !a.contains('@'),
        !b.contains('@'),
        !c.contains('@'),
        0 <= i < (a + ":"@ + b + ":"@ + c).len(),
    ensures
        (a + ":"@ + b + ":"@ + c)[i] != '@',
{
    reveal_strlit(":");
    let whole = a + ":"@ + b + ":"@ + c;
    if i < a.len() {
        assert(whole[i] == a[i]);
        assert(a.contains(a[i]));
    } else if a.len() < i < a.len() + 1 + b.len() {
        assert(whole[i] == b[i - a.len() - 1]);
        assert(b.contains(b[i - a.len() - 1]));
    } else if i > a.len() + 1 + b.len() {
        let k = i - a.len() - b.len() - 2;
        assert(whole[i] == c[k]);
        assert(c.contains(c[k]));
    }
}

/// A command line is refused for the first thing that is wrong with it: too few arguments, the
/// backend, the network, the name, the addresses; one with nothing wrong is read.
pub proof fn law_command_lines_are_refused(args: Seq<Seq<char>>, post_quantum: bool)
    requires
        forall|i: int| 0 <= i < args.len() ==> !is_flag(#[trigger] args[i]),
        args.len() >= 2,
    ensures
        ({
            let n: int = if args.len() >= 3 && u16_of(args[2]) is Ok {
                3
            } else {
                2
            };
            let r = command_line(args, post_quantum);
            let network_ok = args.len() <= n || args[n] == "testnet"@ || args[n] == "regtest"@
                || args[n] == "signet"@;
            let name_ok = args.len() <= n + 1 || encode_utf8(args[n + 1]).len() <= 32;
            let addresses_ok = forall|i: int|
                n + 2 <= i < args.len() ==> socket_address(#[trigger] args[i]);
            match rpc_info(args[0]) {
                Err(e) => r == Err::<UserInfoView, _>(e),
                Ok(_) => if !network_ok {
                    r == Err::<UserInfoView, _>(StartupError::BadNetwork)
                } else if !name_ok {
                    r == Err::<UserInfoView, _>(StartupError::LongNodeName)
                } else if !addresses_ok {
                    r == Err::<UserInfoView, _>(StartupError::BadListenAddress)
                } else {
                    r is Ok
                },
            }
        }),
{
    lemma_no_flags(args);
    let n: int = if args.len() >= 3 && u16_of(args[2]) is Ok {
        3
    } else {
        2
    };
    let later = args.skip(n);
    if args.len() > n {
        assert(later[0] == args[n]);
    }
    if args.len() > n + 1 {
        assert(later[1] == args[n + 1]);
        let list = later.skip(2);
        assert(forall|i: int| 0 <= i < list.len() ==> #[trigger] list[i] == args[n + 2 + i]);
        if all_addresses(list) {
            assert forall|i: int| n + 2 <= i < args.len() implies socket_address(
                #[trigger] args[i],
            ) by {
                assert(list[i - n - 2] == args[i]);
            }
        }
        if forall|i: int| n + 2 <= i < args.len() ==> socket_address(#[trigger] args[i]) {
            assert forall|i: int| 0 <= i < list.len() implies socket_address(
                #[trigger] list[i],
            ) by {
                assert(socket_address(args[n + 2 + i]));
            }
        }
    }
}

/// A flag that is not known stops the node, and so does a port that is none; every flag that is
/// known is taken, wherever it stands.
pub proof fn law_flags_are_checked(args: Seq<Seq<char>>, post_quantum: bool, i: int)
    requires
        0 <= i < args.len(),
        is_flag(args[i]),
    ensures
        !(args[i] == "--gossip-stats"@ || post_quantum && (args[i] == "--pq-require-payments"@
            || args[i] == "--pq-require-inbound"@ || args[i] == "--pq-blinded-paths"@ || (
        names_pq_port(args[i]) && u16_of(args[i].skip(17)) is Ok))) ==> command_line(
            args,
            post_quantum,
        ) is Err && read_flags(flags_in(args), post_quantum) is Err,
{
    if read_flags(flags_in(args), post_quantum) is Ok {
        lemma_bad_flag(args, post_quantum, i);
    }
}

proof fn lemma_bad_flag(args: Seq<Seq<char>>, post_quantum: bool, i: int)
    requires
        0 <= i < args.len(),
        is_flag(args[i]),
        read_flags(flags_in(args), post_quantum) is Ok,
    ensures
        args[i] == "--gossip-stats"@ || post_quantum && (args[i] == "--pq-require-payments"@
            || args[i] == "--pq-require-inbound"@ || args[i] == "--pq-blinded-paths"@ || (
        names_pq_port(args[i]) && u16_of(args[i].skip(17)) is Ok)),
    decreases args.len(),
{
    let first = args.drop_last();
    if is_flag(args.last()) {
        assert(flags_in(args).drop_last() =~= flags_in(first));
        assert(flags_in(args).last() == args.last());
    }
    if i < args.len() - 1 {
        assert(first[i] == args[i]);
        lemma_bad_flag(first, post_quantum, i);
    } else {
        lemma_pq_port(args.last());
    }
}

/// The first flag that says nothing decides what the operator is told, before anything is said
/// about the other arguments: a port that is none is told as such, and all else is unknown.
pub proof fn law_first_bad_flag_decides(
    before: Seq<Seq<char>>,
    arg: Seq<char>,
    after: Seq<Seq<char>>,
)
    requires
        is_flag(arg),
        read_flags(flags_in(before), true) is Ok,
        read_flags(flags_in(before.push(arg)), true) is Err,
    ensures
        command_line(before.push(arg) + after, true) == Err::<UserInfoView, _>(
            if names_pq_port(arg) {
                StartupError::BadPqPort
            } else {
                StartupError::UnknownFlag
            },
        ),
    decreases after.len(),
{
    let args = before.push(arg) + after;
    if after.len() == 0 {
        assert(args =~= before.push(arg));
        assert(args.drop_last() =~= before);
        assert(flags_in(args).drop_last() =~= flags_in(before));
        assert(flags_in(args).last() == arg);
        lemma_pq_port(arg);
    } else {
        let shorter = after.drop_last();
        law_first_bad_flag_decides(before, arg, shorter);
        lemma_flag_errors(before.push(arg) + shorter);
        assert(args.drop_last() =~= before.push(arg) + shorter);
        assert(args.last() == after.last());
        if is_flag(after.last()) {
            assert(flags_in(args).drop_last() =~= flags_in(before.push(arg) + shorter));
        }
        lemma_flags_monotone(before.push(arg), shorter);
    }
}

/// Errors of flags are errors of the command line.
proof fn lemma_flag_errors(args: Seq<Seq<char>>)
    ensures
        read_flags(flags_in(args), true) matches Err(e) ==> command_line(args, true) == Err::<
            UserInfoView,
            _,
        >(e),
{
}

/// What was wrong with flags stays wrong behind further arguments.
proof fn lemma_flags_monotone(args: Seq<Seq<char>>, after: Seq<Seq<char>>)
    requires
        read_flags(flags_in(args), true) is Err,
    ensures
        read_flags(flags_in(args + after), true) == read_flags(flags_in(args), true),
    decreases after.len(),
{
    if after.len() == 0 {
        assert(args + after =~= args);
    } else {
        lemma_flags_monotone(args, after.drop_last());
        assert((args + after).drop_last() =~= args + after.drop_last());
        if is_flag(after.last()) {
            assert(flags_in(args + after).drop_last() =~= flags_in(args + after.drop_last()));
        }
    }
}

/// Where all flags are known, they are read.
pub proof fn law_known_flags_are_read(args: Seq<Seq<char>>)
    requires
        forall|i: int|
            0 <= i < args.len() && is_flag(#[trigger] args[i]) ==> args[i] == "--gossip-stats"@
                || args[i] == "--pq-require-payments"@ || args[i] == "--pq-require-inbound"@
                || args[i] == "--pq-blinded-paths"@ || (names_pq_port(args[i]) && u16_of(
                args[i].skip(17),
            ) is Ok),
    ensures
        read_flags(flags_in(args), true) is Ok,
    decreases args.len(),
{
    if args.len() > 0 {
        let first = args.drop_last();
        assert(forall|i: int| 0 <= i < first.len() ==> first[i] == args[i]);
        assert(args[args.len() - 1] == args.last());
        law_known_flags_are_read(first);
        lemma_pq_port(args.last());
        if is_flag(args.last()) {
            assert(flags_in(args).drop_last() =~= flags_in(first));
            assert(flags_in(args).last() == args.last());
        }
    }
}

/// The chains that do not match are both named, and every error of the command line is told in
/// words of its own.
pub proof fn law_startup_errors_are_told(network: Network, chain: Seq<char>, error: StartupError)
    ensures
        ({
            let name = match network {
                Network::Bitcoin => "bitcoin"@,
                Network::Testnet => "testnet"@,
                Network::Testnet4 => "testnet4"@,
                Network::Signet => "signet"@,
                Network::Regtest => "regtest"@,
            };
            chain_mismatch(network, chain) matches Some(line) ==> line == "Chain argument ("@
                + name + ") didn't match bitcoind chain ("@ + chain + ")"@
        }),
        match error {
            StartupError::UnknownFlag => error.text() == "ERROR: unknown flag"@,
            StartupError::BadPqPort => error.text() == "ERROR: --pq-listen-port requires a port"@,
            StartupError::MissingArguments => error.text()
                == "ERROR: at least 2 arguments are required: `[<bitcoind-rpc-username>:<bitcoind-rpc-password>@]<bitcoind-rpc-host>:<bitcoind-rpc-port> <ldk_storage_directory_path> [<ldk-peer-listening-port>] [<bitcoin-network>] [<announced-node-name>] [<announced-listen-addr>...] [flags]`"@,
            StartupError::BadRpcAuth => error.text()
                == "ERROR: bad bitcoind RPC username/password combo provided"@,
            StartupError::BadRpcPath => error.text() == "ERROR: bad bitcoind RPC path provided"@,
            StartupError::BadRpcPort => error.text() == "ERROR: bad bitcoind RPC port provided"@,
            StartupError::BadNetwork => error.text()
                == "ERROR: unsupported network provided. Options are: `regtest`, `testnet`, and `signet`"@,
            StartupError::LongNodeName => error.text()
                == "ERROR: node alias can not be longer than 32 bytes"@,
            StartupError::BadListenAddress => error.text()
                == "ERROR: failed to parse announced-listen-addr into an address"@,
        },
{
}

/// An argument is a flag if and only if it begins with two dashes. Flags take no place among the
/// other arguments, and all other arguments keep their order.
pub proof fn law_flags_take_no_place(args: Seq<Seq<char>>, arg: Seq<char>)
    ensures
        is_flag(arg) <==> arg.len() >= 2 && arg.take(2) == "--"@,
        is_flag(arg) ==> positionals_in(args.push(arg)) == positionals_in(args) && flags_in(
            args.push(arg),
        ) == flags_in(args).push(arg),
        !is_flag(arg) ==> positionals_in(args.push(arg)) == positionals_in(args).push(arg)
            && flags_in(args.push(arg)) == flags_in(args),
        positionals_in(seq![]) == Seq::<Seq<char>>::empty(),
        flags_in(seq![]) == Seq::<Seq<char>>::empty(),
{
    reveal_strlit("--");
    assert(args.push(arg).drop_last() =~= args);
    if arg.len() >= 2 {
        assert(arg.take(2)[0] == arg[0] && arg.take(2)[1] == arg[1]);
        if is_flag(arg) {
            assert(arg.take(2) =~= "--"@);
        }
    }
}

} // verus!
