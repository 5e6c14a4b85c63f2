# timestampvm

A virtual machine for an Avalanche chain that runs Solana programs.

`src/` decides. It is verified with Verus and does no I/O: where the virtual
machine needs a database, a clock, a socket or the consensus engine, a function
returns what is to be done, and another takes what came back.

| module | what it holds |
| --- | --- |
| `error`, `text`, `encoding`, `ids`, `account` | errors, text, base-64, block ids and addresses, accounts and writes of accounts |
| `block`, `block::deploy_tx` | blocks, and the deployment of programs |
| `processor` | the account database's cache, and the plan for executing transactions |
| `state` | the block store: keys, records, and the answers of its database |
| `client` | the requests of the client, and its errors |
| `vm`, `vm::init`, `vm::api` | mempools and block building, the steps of the initialization, the calls with fixed answers |

Functions marked `external_body` call other crates; what is believed of each call
stands above it. The public proof functions state what holds across calls, such as
that a read gives back what was written.

`app/` does: it runs the virtual machine as a plugin of a node, with its databases,
files, channels and handlers. A chain supplies its blocks, its genesis and its
handlers through the traits in `app/chain.rs`.
