# n3

The core of the n3 toolkit for neural networks, with its behaviour stated in
contracts and proved by Verus.

- `src/ast`: values, variables, expressions and their text; the nodes and
  calls of tensor graphs and their shapes.
- `src/builder`: graphs of variables, the checks and builders of the nodes of
  a tensor graph (the input node, `Transform`, `ToLinear`, `Concat` and calls
  of other nodes), external nodes, the variables of a program, and their
  compact form.
- `src/machine`: machine queries, programs and work statuses, the planning
  of works over hosts, and the host that loads, runs and ends works.
- `src/api`: the results that the web interface answers with.
- `src/text`: decimal text of numbers.
- `app`: what touches the outside world: files, shared memory, signals,
  network addresses and the machine generators of a host.
- `tests`: the tests of the library.
