# rdma_daq

A library for data acquisition over RDMA: nodes of a network synchronise
with barriers and exchange setup data, and read-out boards (PCIe40) deliver
multi-fragment packets through ring buffers, in device memory or in POSIX
shared memory.

Layout:

- `src/` is the library, written in Verus: every function there carries a
  contract that Verus proves, except the one function that decodes a C name
  with std's `String::from_utf8_lossy`, whose contract is trusted. Where the
  work talks to a device, the network or the file system, the library takes
  the answer (a driver's status code, a byte buffer, a received message) as a
  plain value and decides what follows from it.
  - `topology`, `barrier`, `barrier_epochs`: barrier trees, dissemination
    rounds, the plan of notifications and waits per algorithm, epochs.
  - `config`, `endpoints`, `exchange`, `multi_channel`, `rdma`: the network
    configuration, endpoint gathering, exchange framing, peer routing, work
    requests and remote memory regions.
  - `mfp`, `old_mfp`: the two packet formats and their readers.
  - `ring_status`, `shm_ring`, `shm_buffer`: ring-buffer status words, the
    shared-memory reader and writer, and the buffer's memory layout.
  - `pcie40`, `pcie40_id`, `pcie40_id_stream`, `pcie40_device`,
    `pcie40_reader`, `old_pcie40_reader`: the driver's interfaces for boards
    and streams, across its generations.
  - `text`: numbers written out in decimal and hexadecimal for messages.
- `tests/` runs the library on concrete values.
- `app/` is ordinary Rust around the library: serde and builder copies of
  the configuration, error types with messages, the TCP exchange on tokio,
  shared memory and file locks, and the calls into the PCIe40 C driver.
