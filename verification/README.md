# pq_ldk_sample

A Lightning node that is run from a console, in two parts.

- `src/` is the library: every decision of the node, as functions of plain values. What a typed
  line asks for, how a command goes on when its answers come in, what an event of the network
  calls for, what the payment records hold and how they are written to disk, how the command line
  is read, and what every report says. All of it is verified with Verus against the contracts that
  stand with it; the public proof functions named `law_..` state what holds of the library as a
  whole. Calls into other crates stand in `src/ldk.rs`, `src/payment_table.rs` and `src/text.rs`,
  each behind a declaration that says what is relied on.
- `app/` is the program around it: the chain backend, the network, the disk and the terminal. It
  carries out the actions that the library returns and tells it what came of them.

The node is started with

    <user>:<password>@<host>:<port> <directory> [<port>] [<network>] [<name>] [<address>...] [flags]

where the user and the password may also come from the environment, from a `.env` file, or from
the cookie of the chain backend. `help` on the console lists the commands.

The library knows the post-quantum extensions (`post_quantum` in its settings): hybrid
connections, pinned keys and the flags that demand them. The program switches them off, since the
network stack that it links has none of them.
