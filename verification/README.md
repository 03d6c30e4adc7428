# jmap-mail

A JMAP mail provider for Evolution's Camel, split in two:

- `src/` is the verified library (Verus): every decision the provider takes,
  as functions over plain values with contracts — the search expression
  grammar and its translation to an `Email/query` filter, the folder tree a
  call is answered with, how a listing or a delta of a mailbox changes a
  folder's rows, which keywords a write sends and how a row is settled, what
  an expunge or a transfer does to the rows, which pushes start which
  refresh, what the message cache may keep and serve, the envelope of a
  submission, and how every failure is reported.
- `app/` is the provider itself: the GObject classes Camel instantiates, the
  vfuncs it calls, and the requests to the server, calling into the library
  for every decision.

`tests/` runs the library on concrete values.
