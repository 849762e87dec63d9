# stellargate

Operational metrics and background-task supervision for a payment gateway,
verified with Verus.

- `src/webhook.rs`, `src/auth.rs`, `src/horizon.rs`: wrapping counters and a
  cumulative latency histogram.
- `src/trustline.rs`: what is known of the gateway's trustlines; `src/codes.rs`
  has the order of asset codes.
- `src/exposition.rs`: `render`, the Prometheus text page; `src/page.rs` and
  `src/text.rs` have the format, `src/tasks.rs` the task health it reports.
- `src/supervise.rs`: when a background task is restarted and after which
  delay; `src/duration.rs` has spans of time and the wall clock.
- `app/`: shared handles on the metrics, and the supervisor's loop on tokio.

Proof functions named `law_*` state what holds across calls. The one trusted
function is `elapsed_since_unix_epoch` in `src/duration.rs`, which reads the
system clock.
