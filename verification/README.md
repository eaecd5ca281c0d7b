# zapret-checker

Tries out strategies of a packet filter (`nfqws2`) against targets that are blocked by deep
packet inspection, several at a time, and tells which of them work.

- `src/` is the library, verified with Verus. It decides: it reads settings and catalogs of
  strategies, picks and combines the strategies to try, writes the commands of the firewall and
  of the packet filter, judges what came of a probe, says what is to be done next, and writes the
  report.
- `app/` is the program around it. It acts: it reads and writes files, opens sockets, looks up
  addresses, runs other programs and prints. Scores are floating-point numbers and are reckoned
  here; the library holds them by their bits.
- `tests/` runs the library.

A probe, a lookup, a task of a worker and the stopping of a packet filter each take turns between
the two: the library names the next step, the program takes it and hands back what came of it.

## What is proved

Every public function states what it returns. Beyond that, among others:

- A task that was done has stopped every packet filter and removed every rule that it began with,
  whatever went wrong on the way (`worker::nothing_is_left`), and it probes only while its filter
  runs and its rule is in force (`worker::probing_is_isolated`).
- The workers have queues and marks of their own (`isolation::queues_differ`,
  `isolation::marks_differ`).
- A failure of the setup changes no belief about a strategy
  (`bayes::infrastructure_is_forgiven`).
- The strategies that are picked keep to the limits, repeat nothing and, without limits, leave
  nothing out (`selection_laws`).
- A state of beliefs that is put into a document is read back from it, and the rest of the
  document is kept (`bayes_records::saved_state_is_loaded`, `bayes_document::the_rest_is_kept`).
- Tasks are handed out in their order, each once (`worker_pool::each_place_once`).
- No pair of strategies that may be combined is lost (`combination::no_pair_is_lost`).

## What is trusted

Calls into other crates and into the standard library stand behind small functions whose comments
say what is taken for granted of them: in `text`, `fault`, `types`, `payload_registry`, `yaml`,
`bayes_document`, `bayes_records` and `probe`.
