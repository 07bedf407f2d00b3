# slasha_server

The rules of a small self-hosted application platform, written in Verus and
proved against their contracts.

- `src/` is the verified library: cron schedules, the scheduler's tick and
  the life of a cron run's record; alert rules, incidents, notification
  text and the order of an alert's deliveries; GitHub webhooks (signature,
  events, which connections a push deploys) and repository mirrors; and the
  Docker side of deploying applications (container names and labels, build
  inputs, environment resolution, scaling, readiness, image pruning,
  Litestream backups, the deployment plans of the runner and of the
  executor, moving an application between nodes, and the compensation
  journals that undo a half-finished operation).
- `tests/` runs the library on concrete values.
- `app/` holds what the library leaves to the server around it: floating
  point alert values, JSON payloads, Git mirrors, HTTP probes and Docker
  calls, and loops that carry out some of the library's plans (cron runs,
  alert deliveries, pushes, the scheduler tick, scaling) with that I/O.
