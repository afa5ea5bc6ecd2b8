# Velstra

The control plane of a virtual network fabric, with the decisions of its data plane, as a verified
library. A controller keeps the fabric (hosts, networks, ports, security groups, subnets and
addresses), derives every host's configuration from it, and serves the configurations to the fleet.
Several controllers agree on one fabric by applying the same log of requests.

## Layout

- `src/` is the library. Every public function in it has a contract that Verus proves; what it relies
  on without proof is stated where it is declared (`text.rs` and `authz.rs`).
- `tests/` runs the library on concrete values.
- `app/` is the program around the library: command line, files, sockets, the HTTP gateway, and the
  storage and transport of the cluster.

## The library

| Modules | What they hold |
| --- | --- |
| `text`, `lists`, `sorted`, `error` | texts, sequences as tables, tables in key order |
| `addr`, `addr_laws` | IPv4, IPv6, prefixes and MAC addresses, read and written |
| `config`, `datum` | node configurations |
| `orchestrator`, `fabric_laws` | the fabric model, what a host derives from it, and its laws |
| `topology`, `topology_save`, `topology_laws`, `live` | the topology file, read and written back |
| `ipam` | which addresses are given out, and floating addresses |
| `srv6`, `srv6_report`, `fabric_config` | SIDs, divergences, and the whole derived configuration |
| `evpn`, `evpn_fold` | the feed of learned routes, and what they add to a configuration |
| `store` | requests, the log and the replicated state machine |
| `controller`, `stats`, `startup` | what is served to whom, counters, and the options |
| `authz`, `admin`, `client`, `rest`, `resources`, `messages`, `audit`, `webhook` | callers, services, records |
| `datapath`, `lookup`, `firewall`, `overlay`, `reply`, `translation` | what becomes of a frame |

A contract speaks of views: the view of a `String` is the sequence of its characters, that of a table
a map, and so on. A function that can fail says on which inputs it does and with which text.

## Laws

Properties that span several functions are public proof functions, next to what they speak of. Among
them: reading back what was written gives the same value (addresses, prefixes, topology files,
snapshots); what a request changed survives a restart, unless it removes a network that a routing
context still names; every operation keeps the tables of the fabric and the address book well
formed; replicas that apply the same entries converge; no address is given out twice; a denied call
proposes nothing; the reply of a translated flow is translated back.
