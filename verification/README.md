# castors

`castors` runs coding agents in isolated Docker containers ("castors"), each
mounting one project directory and reaching the network only through a shared
egress proxy (Squid, or mitmproxy when secrets must be injected into HTTPS
requests).

The crate is a Verus library with its command-line program around it:

- `src/` — the verified library. Each public function carries a
  `requires`/`ensures` contract that Verus proves.
  - `base` — castor names, image tags, mount directories and their safety
    rules; the state paths; the registry of castors.
  - `config` — configuration documents, how global and project layers merge,
    and how a castor's name and image are chosen.
  - `proxy` — rendering of `squid.conf` and of the mitmproxy policy.
  - `engine` — the engine interface and the Docker backend's argument
    vectors and the meaning of each `docker` output.
  - `cli` — the command logic (`add`, `rm`, `prune`, `restart`, `exec`,
    `list`, `infra refresh`, `mitm ca`) over an engine and a registry store.
  - `text`, `sorted` — string and sorted-vector helpers with their specs.
- `app/` — ordinary Rust: argument parsing (clap), YAML and JSON files
  (serde), the state lock (fs2), running `docker`, and printing.
- `tests/` — tests of the library, run against an in-memory engine and store.
