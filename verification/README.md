# aptos_execution

The decisions and computations of block execution tooling, verified with Verus.

- `src/` is the library. Every function states what it returns or changes, and Verus
  proves it. What holds over several functions is stated by public proof functions.
- `tests/` runs the library on concrete values.
- `app/` runs it: threads, channels, clocks, floating-point reports and the command
  line. The services of a node are handed in through traits.

| Module | What it does |
| --- | --- |
| `chunk_output`, `parsed_output`, `chunk_laws` | sorts the outputs of a chunk into what is committed, discarded and tried again |
| `chunk_counters`, `counter_laws` | says which metrics a processed chunk moves |
| `remote_executor_client`, `remote_addresses`, `block_dispatch` | says what is sent to the executor shards for a block |
| `shard_outputs` | puts what the shards send back in order, and fills in the total supply |
| `transaction_committer` | commits executed blocks one after the other |
| `bounded_batch_wrapper` | bounds what is asked of a transaction generator at a time |
| `execute_past_transactions` | works out what a command line asks for |
| `querier`, `query_graph`, `bytecode` | tells what Move bytecode is, and which functions it calls |
| `transaction`, `output`, `status`, `hash` | the data that the rest works on |
| `sequence`, `text` | building blocks |
