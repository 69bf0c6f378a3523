# supervised

A small tokio service supervisor whose lifecycle decisions are verified with Verus:
restart, shutdown, cancellation and startup readiness.

## Layout

- `src/` is the verified library. It never spawns, sleeps or waits; it is told what
  happened and answers with what to do next.
  - `policy`: restart and exit policies.
  - `readiness`: startup gates and the aggregate readiness they add up to.
  - `service`, `context`: the service trait, its adapters and the context a service
    runs with.
  - `runtime`: the builder, registrations, and the start of a run.
  - `lifecycle`: how the supervisor answers the exit of a service.
  - `drain`: coordinated shutdown.
  - `summary`, `error`: what a run reports.
  - `laws`: what holds of a run as a whole.
  - `task`, `token`, `watch`, `time`, `text`: the edge to `tokio`, `tokio-util` and
    `std`. Contracts that are taken on trust stand here.
- `app/` runs supervisors on tokio: it spawns the launches, waits for tasks, and
  drives the library.
- `tests/` runs the library, with a driver of its own.

## Example

```rust
use supervised::{service_fn, Context, ServiceExt, ServiceOutcome};

let summary = SupervisorBuilder::new(App { name: "bar" })
    .shutdown_on_ctrl_c()
    .add(
        service_fn("worker", |ctx: Context<App>| async move {
            std::future::pending::<ServiceOutcome>().await
        })
        .until_cancelled(),
    )
    .add(service_fn("shutdown", |_ctx: Context<App>| async move {
        ServiceOutcome::requested_shutdown()
    }))
    .build()
    .run()
    .await?;
```

## Readiness

Services are ready immediately by default. `.when_ready()` makes aggregate readiness
wait until the service calls `ctx.readiness().mark_ready()` or completes
successfully. A service that ends before that shuts the system down, whatever its
policy says.
