# carbide

Verified core of the Carbide control plane, written in Verus.

- `src/` — the library, every function verified:
  - `identity_url`, `tenant_identity_policy`, `trust_domain_allowlist`:
    validation of issuer URLs, SPIFFE subject prefixes, token endpoints and
    trust-domain allow-lists (URL parsing itself is done by the `url` crate);
  - `column_set`, `query_builder`: column sets rendered into `INSERT`,
    `UPDATE` and `WHERE` fragments on a sqlx Postgres query builder;
  - `bmc_proxy`: the BMC proxy's header filtering and `Forwarded` host parsing;
  - `dpu_watcher`: which callbacks a DPU update triggers, and the watcher builder;
  - `admin_cli`, `bundle_args`, `report_args`, `rms_args`: decisions and
    argument types of the admin command line;
  - `text`, `url_parts`: text helpers and the parsed-URL model.
- `app/` — plain Rust around the library: serde and error-trait impls, the
  proxy's HTTP plumbing, the watcher's task runner, clap argument types.
- `tests/` — tests of the library.
