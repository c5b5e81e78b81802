# Resource Guardian

Cooperative resource enforcement for a runtime that hosts many workers. Each
worker has a budget of heap memory, CPU time, network throughput and open files.
The guardian tells which workers have to be stopped, and what is to be logged;
other workers are left alone. All workers together may use 80 % of the system's
CPU time.

| Phase     | At    | What happens                  |
|-----------|-------|-------------------------------|
| Warning   | 70 %  | A line for the log            |
| Degraded  | 85 %  | New allocations are to be throttled |
| Hard stop | 100 % | The worker is to be terminated |

The phase of a worker is recorded whenever it is checked. A line is logged when
it is found in a higher phase than the one recorded, and none while it goes on as
it is or falls back. What workers use of CPU and network is
counted per enforcement window: tell the guardian how much time has passed with
`elapse`.

The library under `src/` is written and proved in Verus:

- `binary64`, `rounding`: usage fractions, rounded as native numbers are, in
  integers; and the facts about rounding that the rest builds on.
- `budget`, `phase`, `usage`: what a worker may use, what it has used, and the
  phase that follows.
- `inspection`, `notice`: what is to be done about one worker, and said of it.
- `conservation`: the limit on all workers together.
- `state`, `guardian`: the registry of workers, enforcement, windows and status;
  as a model, and in code.
- `text`: numbers in decimal.
- `laws`, `registry_laws`: what holds of the library as a whole.

`app/` is the host's side: locks, the log, callbacks and native numbers.
