# jwalk-meta

The core of a parallel directory walker with metadata, written in Verus.
Every function under `src/` is verified by Verus against its contract. Where
what a function does depends on other threads (a channel send, the shared
stop flag or pending count) or on the machine (its byte order), its contract
states what holds of every outcome: what it hands to each outside call, and
what it does with each answer (recorded as ghost values where the answer is
not returned). The queue steps also come as functions that take the flag or
count they read as an argument, with exact contracts. What a shared atomic
count holds is not stated anywhere. The calls into outside crates
go through a few trusted items whose contracts are stated next to them.

## Layout

- `src/` — the verified library:
  - `index_path`, `lex_order`: positions in the walk tree and their
    depth-first preorder.
  - `priority`, `priority_buffer`, `weighted`, `ordered`: the ranks used for
    scheduling and output, and a binary max-heap that hands out the highest
    rank first.
  - `ordered_matcher`: which result the ordered output expects next; proved
    to follow the depth-first preorder of the walk tree.
  - `priority_queue`, `ordered_queue`, `channel`: the non-blocking steps of
    the work queue and of the result queue over crossbeam channels.
  - `read_dir`, `walk`: what the walk derives from one directory read
    (children to schedule, their weights and positions).
  - `unix_dirent`, `nt_dirent`: parsing of `getdents64` and
    `FILE_ID_BOTH_DIR_INFO` buffers, and the decisions around them.
  - `fs_detect`, `io_uring_plan`: I/O strategy per device and the plan for
    batched `statx` through io_uring.
  - `metadata`: identities used for symlink-loop detection.
- `app/` — the unverified edge: system calls, blocking waits, threads, and
  the iterators that drive the verified steps.
- `tests/` — tests of the library on concrete values.
