# mxc_containment

Two things about running code in containment backends, written in Verus:

- `stateful`: the stateful Hyperlight backend. A sandbox is provisioned, started, asked to execute
  code any number of times, stopped and deprovisioned, and what the code leaves behind survives from
  one execution to the next.
- the rest: what a benchmark of the Hyperlight, NanVix and WSLc backends does with its measurements,
  from the requests that it sends to the statistics, density estimates and disk footprints that it
  reports.

`src/` is the library. It does no input or output: it decides what comes next and computes what the
readings come to, and every function states exactly what it returns. Durations are whole nanoseconds,
amounts are whole bytes, and quotients stay quotients until they are written out.

`app/` is the program around it: the command line, processes and threads, the operating system's
counters, the execution engine, the guest runtime, and the floating-point form of the results.

`tests/` runs the library on concrete values.
