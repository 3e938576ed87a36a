# raptor

Raptor builds container layers from Raptor files (a Dockerfile-like
syntax) and runs programs on top of them with `systemd-nspawn`.

This crate holds Raptor's logic as a Verus-verified library:

- `dsl`, `program`: instructions, statements and loaded programs.
- `nspawn`, `mounts`, `runner`, `sandbox`: the `systemd-nspawn` command
  line, how `MOUNT` instructions become bind mounts and overlays, the
  command a container runs, and the build sandbox's settings.
- `layer`, `cache`, `planner`, `stats`, `jobs`: layer ids, what a layer's
  cache key depends on, the job graph of a make run, and job bookkeeping.
- `resolver`, `loader`, `jinja`, `executor`: where module names lead,
  include rules, template arguments, and what each statement asks of the
  build sandbox.
- `make`: make files (`Raptor.toml`), their jobs and mounts.
- `client`, `debootstrap`, `syntax`, `span`, `escape`, `envmap`, `names`,
  `paths`, `text`, `image`: requests to the sandbox and their framing,
  `debootstrap` progress, small pieces of the file syntax, error context,
  shell escaping, and the maps and strings the rest is built from.

`app/` is the `raptor` command around the library: argument parsing,
files, the template engine, error display and process spawning. It is
not a working build tool on its own. Reading Raptor files needs the
Raptor file parser, and building a layer needs the `falcon` sandbox
client and the Docker registry client; none of these is part of this
build. So loading a program stops after its template is rendered,
building a layer that is not finished stops with an error, make jobs
run one after another without the planner, and error reports show no
include chain.

Maps keyed by strings (`EnvMap`, `NameLists`, `StrMap`) are kept as
vectors of entries with their invariants stated and proved: vstd
specifies `HashMap` and `BTreeMap` through a key model that `String`
keys do not obey, so with `String` keys not even the length after one
insert can be proved of them.
