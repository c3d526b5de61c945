# zeroclaw_fleet

Decision core of an orchestrator that runs several isolated ZeroClaw instances,
called claws, under one host. The core is written in Verus: what each function
returns is stated in its contract and proved.

## Layout

- `src/` is the verified library. It does no I/O.
  - `manifest`, `document`, `render`: the fleet's manifest, configuration
    documents, and the rendering of a claw's `config.toml`.
  - `driver`: a claw as a Docker container, the file that adds to its environment,
    and the plans that create, replace, start and stop it.
  - `provision`: the provisioning and the removal of tenants, as runs that ask
    for one action after the other, and the clients of the services involved.
  - `bearer`, `bearer_rotation`, `base64_text`: the bearers that pair claws with
    the orchestrator, and the rotation of those that claws present to the hub.
  - `cost_poller`, `calendar`: what the claws cost, and when that was known.
  - `api`, `web`, `proxy`, `config`: the answers of the HTTP interface, the pages,
    the hosts of claws and the configuration.
  - `text`, `keymap`, `paths`, `wire`, `failure`, `clock`: what all of these rest
    on.
- `app/` is the program: command line, files, HTTP client and server, the Docker
  daemon. It carries out what the library asks for.
- `tests/` runs the library.

Functions whose name begins with `law_` state what holds of the library as a
whole: that an overlay cannot shadow what the orchestrator sets, that a retried
provisioning run does nothing that the saved state records as done, that an
ensured claw runs.

Calls into other crates stand behind small functions marked
`#[verifier::external_body]`; their contracts are believed, not proved, and the
comment above each says what is claimed.
