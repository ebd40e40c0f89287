# api_server

The decision logic of a Kubernetes-compatible API server, verified with Verus.

The server's handlers alternate between decisions and outside work: they ask an
authorizer, a store, webhooks and kubelets, and decide what follows from each
answer. The decisions are in `src/`, as functions from plain values to plain
values and as step functions from a state and a reply to the next state. Every
one of them has a contract. `app/` does the outside work and hands the replies
back.

- `access`, `error`, `model`, `resources`, `kinds`: who asks for what, and the
  shapes of objects and errors.
- `plan`, `collection`, `objects`: the steps of a request on an object or on a collection.
- `pod_create`, `pod_update`, `pod_patch`, `pod_delete`, `pod_list`,
  `pod_rules`: the life of a pod.
- `connect`, `binding`, `eviction`, `resize`: what can be done to a pod that is
  there.
- `watch`, `watch_open`, `watch_stream`, `watch_routes`, `selector`: streams of
  changes.
- `rbac`, `roles`: rules, what they cover, and who may grant them.
- `scale`, `workloads`, `volumes`, `identity`: the rules of single resources.
- `validation`, `validation_laws`, `json_keys`, `json_documents`: unknown and
  repeated fields.
- `ip_allocator`: addresses of services.
- `text`, `collections`, `json`, `json_text`, `json_strings`: what the others are
  built on.

Facts that span several functions stand as public proof functions whose names
start with `law_`.
