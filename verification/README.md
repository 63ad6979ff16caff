# websockproxy-relay

A Layer 2 relay that carries raw Ethernet frames over WebSocket connections and joins them with a
local TAP device. The logic is a library that Verus verifies; the program around it does the I/O.

- It accepts WebSocket connections on `/`.
- It learns the source address of each client and forwards a frame for a known address to that
  client alone.
- It floods broadcast, multicast and unknown unicast frames to the other clients and to the TAP
  device, and never sends a frame back to the client it came from.
- It publishes traffic figures on `/metrics` in the Prometheus text format.
- It can set up the host's network for the TAP device: not at all, through a bridge, or through
  address translation.

## Layout

| Place | What it holds |
| --- | --- |
| `src/mac.rs`, `src/frame.rs` | Ethernet addresses and frames |
| `src/table.rs` | the switch table: clients, and the addresses that lead to them |
| `src/queue.rs` | the queues to the clients and to the TAP device, and what went through them |
| `src/clock.rs` | the time that has passed |
| `src/relay.rs` | the state of the relay, and what becomes of a frame |
| `src/session.rs` | sessions of clients, batches, the steps of the TAP task |
| `src/traffic.rs`, `src/metrics.rs` | counters, their history, and the metrics page |
| `src/peer.rs` | the client that a proxy names |
| `src/cli.rs`, `src/network/` | settings, uplink, bridge and address translation |
| `src/text.rs` | text helpers |
| `app/` | the program: command line, sockets, TAP device, netlink, nftables |
| `tests/` | tests of the library |
| `extras/build_version.sh` | the version that `--version` prints |

The library has one owner at a time: its operations take `&mut AppState`. The program shares the
state between its tasks behind a mutex. Whatever a frame does is told by a report, from which the
program writes its log.

## Configuration

| Flag | Environment variable | Default |
| --- | --- | --- |
| `--listen-addr` | `LISTEN_ADDR` | `0.0.0.0:80` |
| `--network-mode` | `NETWORK_MODE` | `none` |
| `--uplink-if` | `UPLINK_IF` | the interface of the default IPv4 route, else the only physical one |
| `--bridge-name` | `BRIDGE_NAME` | `br0` |
| `--nat-network` | `NAT_NETWORK` | `10.200.0.0/24` |
| `--tap-name` | `TAP_NAME` | `tap0` |
| `--tap-mtu` | `TAP_MTU` | `1500` |

`--version` prints what `BUILD_VERSION` was when the program was built.
