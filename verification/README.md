# eyg

Typed message passing between workers, verified with Verus.

Workers are pure: handling a message gives back the mail to send and the
next state of the worker. A runtime owns the system of workers and delivers
mail one letter at a time until none is left.

- `schedule`: the model of a run under the stack discipline (last letter
  first) and the queue discipline (first letter first), with its laws.
- `mail`, `mailbox`: mailbox-typed envelopes, the last-in first-out `Runtime`,
  and delivery into a table of workers started on demand.
- `envelope`, `worker`, `home`, `gen`, `runtime`, `v2`: address-typed
  envelopes, homes that lend out workers, the generic server, and the
  first-in first-out `OrderedRuntime`.

`app/` holds the systems that keep their worker tables in a `typemap::TypeMap`.

A user trait's methods carry their contract only for types that declare, by
its `obeys_*` spec function, that their code follows the trait's spec
functions; of other types nothing is assumed.
