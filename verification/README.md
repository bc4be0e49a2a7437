# isolate_core

The decision-making core of Isolate, a toolkit that runs DPI-bypass
strategies (zapret/winws and sing-box) and tests them, written in Verus with
its behaviour stated in contracts and proved.

- `src/` is the verified library: parsing and analysing winws arguments,
  strategy files and their combination into one command line, service
  compositions and their rules, port allocation and the state of the
  strategy engine, sing-box and TUN instances, prepared strategies, the
  history of metrics snapshots, the telemetry batch and the anonymisation of error messages, the results of
  service checks, probes and DPI tests, the Windows proxy string, and the
  SOCKS5 handshake bytes.
  Collections that the program uses as maps are lists with the laws of a
  map (`src/keyed.rs`).
- `app/` holds what stays outside the proofs: reading and writing strategy
  and composition files with serde, starting and stopping strategy
  processes and the TUN interface's sing-box, testing against the DPI
  simulator with `curl` and `ssh`, running `netsh`, writing the sing-box
  configuration of the TUN interface, and the floating-point scoring of
  probe results.
- `tests/` runs the library on concrete inputs.
