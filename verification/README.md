# omicron

Parts of a rack's control plane, written in Rust and verified with
[Verus](https://github.com/verus-lang/verus).

The library in `src/` holds the logic: what blueprints describe and how two of
them differ, the simulated system that blueprints are planned against, the
decisions of the saga that starts an instance, the setup of authorization, and
the rules of several smaller services. Every function states in its contract
what it returns, and Verus proves it. What holds of several functions together
is stated and proved by public proof functions whose names start with `law_`.

| Module | What it holds |
| --- | --- |
| `deployment`, `blueprint_diff`, `diff_laws` | policies, blueprints and the differences between them |
| `sectioned_table`, `table_display` | blueprints and their differences, laid out as tables |
| `inventory`, `description`, `registry`, `system`, `system_laws` | the simulated system |
| `internal_dns` | allocation of subnets for internal DNS servers |
| `instance_start` | the saga that starts an instance |
| `authz` | actions, permissions and the Oso environment |
| `region_snapshot` | queries on region snapshots |
| `metrics_producer_gc`, `producer`, `clickhouse_generator` | metrics |
| `http_server` | request handling and demo endpoints |
| `zone_images` | example zone images for install datasets |
| `dispatch`, `sysconf` | what a shell command runs, and readings of the operating system |
| `text`, `net`, `time`, `sort`, `ordered` | what the other modules are built on |

Functions of other crates are called through small wrappers marked
`external_body`, each with a contract that Verus takes on trust. The doc comment
of each says what is claimed of the function it calls.

`tests/` runs the library with the real crates linked. `app/` is ordinary Rust
around the library: servers, databases, files, logs and the operating system.
