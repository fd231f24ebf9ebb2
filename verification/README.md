# ekokube

Kubernetes resource accounting: a per-node agent samples pod usage from the
cgroup v2 filesystem and pod metadata from the kubelet, and writes both to
ClickHouse; a server answers the dashboards' queries (overview, namespaces,
workloads, nodes, pods, tenants) and keeps namespace and node labels in sync.

## Layout

- `src/` is the verified library (Verus). It holds everything that decides
  or computes:
  - `quantity` — Kubernetes quantities (`100m`, `1.5Gi`) with exact decimal
    arithmetic;
  - `agent::cgroup`, `agent::node` — pod discovery over a directory listing,
    and the parsers of `cpu.stat`, `memory.*`, PSI files, `/proc/stat` and
    `/proc/meminfo`;
  - `agent::kubelet` — workload resolution and the per-pod metadata record;
  - `agent::collector` — the per-pod state kept between cycles and what each
    cycle writes;
  - `agent::sink` — the bounded outage buffer;
  - `server::tenancy` — tenant rules, their validation and compilation to a
    ClickHouse expression;
  - `server::api` — query parameters, bucket choice and the text of every
    query, auth decisions and request metrics;
  - `agent::config`, `server::config` — settings from the environment.
- `app/` is the program around it: the `ekokube agent` and `ekokube server`
  entry points, file and network I/O, HTTP routing, JSON forms of the
  library's types, and the floating-point rates, averages and costs.
- `tests/` exercise the library on concrete values.
