# Atlas Txn Sender

A service that sends Solana transactions to the leaders of the upcoming slots, and
sends them again until they land. What it decides is a Verus library: every function
under `src/` states in its contract what it returns, or, where the clock or chance
decides, what holds of every outcome, and is proved to keep to it. The program around it, under `app/`, talks to the network and runs the library's state
machines.

## Layout

| Module | What it holds |
| --- | --- |
| `transaction` | transactions as plain values, and what the Solana SDK computes on them |
| `encoding` | transactions in base58 and base64 |
| `priority` | what a transaction pays for priority |
| `transaction_store` | the transactions that wait for confirmation |
| `retry` | rounds of retries, load shedding, attempts to reach a leader |
| `send_run` | sending one transaction to one leader after the other |
| `bundle` | sending several transactions, each after the one before it |
| `txn_sender` | tracking a transaction from the request to its landing |
| `batch` | a batch of transactions, each after the one before it was confirmed |
| `rpc_server` | the requests of clients |
| `leader_tracker` | the leaders of the upcoming slots |
| `grpc_geyser` | the streams of slots and blocks, and confirmations |
| `connection_manager` | taking turns among identities |
| `config` | settings and their defaults |
| `tags`, `utils`, `clock`, `errors`, `collections` | what the others share |

Where work is done outside (a question to the RPC node, a message on a stream, a
pause), the library gives an action and takes the outcome as an event. The laws that
hold of whole runs are the proof functions whose names begin with `law_`.

What is computed by other crates goes through small wrappers whose contracts are
believed, not proved; each says in its comment which function it calls and what it
claims of it.

## Building the service

The manifest lists all crates but the clients that the program talks through, which bring
a large tree of packages of their own. A build of the program adds them: `solana-client` at 1.17, `yellowstone-grpc-client` and
`yellowstone-grpc-proto`.

## Environment

- `RPC_URL`: RPC node that is asked for slot leaders
- `GRPC_URL`: Yellowstone gRPC geyser that streams slots and blocks
- `X_TOKEN`: token for the geyser
- `TPU_CONNECTION_POOL_SIZE`: leaders to keep connections to (4)
- `NUM_LEADERS`: leaders to send transactions to (2)
- `LEADER_OFFSET`: leaders by which the window is moved ahead (0)
- `IDENTITY_KEYPAIR_FILE`: keypair to connect with
- `PORT`: port of the service (4040)
- `TXN_SENDER_THREADS`: threads that send (4)
- `MAX_TXN_SEND_RETRIES`: most retries of a transaction (5)
- `TXN_SEND_RETRY_INTERVAL`: seconds between rounds of retries (2)
- `MAX_RETRY_QUEUE_SIZE`: queue length from which transactions are shed (none)
