# xous_services

Service logic of the Xous operating system, verified with Verus.

- `src/net`: the network service. UDP ports and their listeners (`udp`, `udp_ports`, `sockets`),
  the pinger (`ping`, `icmp`, `network_order`, `clock`), hooks of the name resolver (`dns`),
  interrupts of the radio controller (`com`), and the next time to work (`wait`).
- `src/gfx`: the graphics service. Text layout (`text`), font memory (`font`) and the test pattern
  (`pattern`).
- `src/perf.rs`: the log of the performance counter.
- `src/scalar.rs`, `src/byte_order.rs`: the non-adjacent form of a scalar.
- `src/soc.rs`: which hardware the registers are generated for.

`app/` holds the services themselves: the message loops, the network stack's input and output, and
the registers. They reach the kernel and the hardware through the traits in `app/platform.rs`.
