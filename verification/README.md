# vm_snapshot

Snapshots of micro-VMs, and the restore path around them, with the logic verified in Verus.

* `src/snapshot` is the golden and diff snapshot format: what a file looks like byte by byte
  (`layout`), writing it (`snapshot`), reading it (`reader`), and the state it records
  (`vcpu_state`, `vm_state`, `serial_state`, `virtio_net_state`). `laws` states what holds of the
  format as a whole: reading undoes writing, files of format version 3 and later stay
  readable, payloads lie where the table says, a prefix decides.
* `src/ch` is the Cloud Hypervisor side: patching a snapshot for a new sandbox
  (`snapshot_rewrite`, `rewrite_laws`), launching and starting (`launch`, `start`, `restore`), and
  the decisions about protection, memory, output and threads.
* `messages`, in both, is what errors say.
* `src/wire` and `src/text` hold little-endian fields and decimal numerals.
* `app` is ordinary Rust around it: files, KVM calls, processes and sockets.

A function that would do I/O takes what was read and gives what is to be written or done next, so
that every decision is in the verified part. Calls into other crates that only compute (SHA-256,
JSON, the KVM table types) stand behind small functions whose contracts are trusted; each says which
function it calls and what it claims of it.
