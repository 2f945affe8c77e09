# tellur_storage

The storage core of the Tellur Team Hub, verified with Verus.

`src/` is the verified library. It holds the decisions the database backends
make between queries:

- `chain` — tamper-evident hash chains with a head checkpoint: linking new
  entries, walking stored rows from genesis or a sealed checkpoint, and the
  laws that make the checkpoint useful (appends stay intact, truncation,
  tampering and relinking are detected, sealing a prefix keeps the rest
  verifiable).
- `audit` — the audit log: entry hashing (`prev|ts|org|actor|action|detail`),
  verification, appends, sealing, and the parameterised listing query.
- `digest` — SHA-256 (from `sha2`) as lower-case hex, and the 64-bit
  advisory-lock key derived from it.
- `role`, `scim` — org roles, the SCIM group-name role mapping and the
  group-driven role sync.
- `csv`, `text` — splitting `group_concat` output into sorted distinct fields,
  and the character-level helpers behind it.
- `jobs`, `device`, `policy`, `schema`, `records` — job and device-flow state,
  policy versioning, migration decisions, and the plain read models.
- `sql` — the bind-parameter syntax of each backend (`?1` or `$1`), used by the
  statements the library builds.

`app/` holds the two backends, SQLite and Postgres: the SQL, transactions,
locks and clocks around the library. `tests/` exercises the library on
concrete values.
