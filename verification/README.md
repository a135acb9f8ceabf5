# gh-webhook-spool

A receiver for GitHub `workflow_job` webhooks. It authenticates every delivery by
its HMAC over the raw body, drops whatever is not a queued job of an allowlisted,
private repository with the expected runner labels, and durably puts each job that
is left into a maildir-style queue, one file per job.

The decisions are a Verus library under `src/`; the program around it, under
`app/`, owns sockets, files, the environment and the clock.

## Layout

| Module            | What it decides                                                  |
| ----------------- | ---------------------------------------------------------------- |
| `webhook`         | what becomes of a delivery (`process`), gate by gate             |
| `auth`            | reading and checking the `sha256=<hex>` signature                |
| `headers`, `json`, `payload` | what is read of a request                             |
| `spool`           | a job's file name, its envelope and the contents of its file     |
| `enqueue`         | which file operation of an enqueue comes next                    |
| `prepare`, `sweep` | the same for preparing the queue's directories and sweeping `tmp/` |
| `secret`          | where the secret comes from, and the way to its file's contents  |
| `fs_security`     | what directories, ancestors and access-control lists must show   |
| `launchd`         | which socket to serve on, and the loopback gate                  |
| `startup`         | what the environment configures, and what is refused             |
| `fault`           | errors that have a kind beside their text                        |
| `text`            | the string operations behind policy and messages                 |
| `webhook_laws`, `queue_laws`, `prepare_laws`, `fs_laws` | what holds across those modules |

Which file operation comes next is the library's decision: a *stage* names it, and a
function of the library takes what the operation gave and names the stage after it.
The program carries a stage out and logs it. `queue_laws` runs the stages of an
enqueue on a model of the queue in which any operation may fail, and `prepare_laws`
those of a preparation on a model of the directory tree.

## Queue format

Each accepted job is `<SPOOL_DIR>/new/{workflow_job_id}.job`:

```
<envelope JSON>\n<raw webhook body>
```

The envelope has schema 2, with the members `schema`, `event`, `delivery`,
`repo_id`, `repo`, `action`, `workflow_job_id`, `head_branch`, `head_sha`,
`job_name`, `received_at_ms` and `signature`, in that order. It is not
authenticated: a consumer splits the file at the first newline, verifies the HMAC
of the body with its own copy of the secret, and derives what it trusts from the
verified body.

## What is trusted

The contracts of `hex::decode`, of HMAC-SHA256 (`hmac`, `sha2`), of the parts of
`serde_json` that read a body and write an envelope, and of `String::push` and
`Debug` for strings of std are stated at the calls and believed. What HMAC-SHA256,
the JSON grammar and the escapes of `Debug` compute is only named there.

## Configuration

`ALLOWED_REPO_IDS` and `EXPECTED_LABELS` are constants in `app/main.rs`; both must
be non-empty. At run time: `GH_WEBHOOK_SECRET_FILE` or `GH_WEBHOOK_SECRET`,
`SPOOL_DIR`, `LISTEN_ADDR`, `LAUNCHD_SOCKET_NAME`, `WEBHOOK_PATH` and
`ALLOW_NON_LOOPBACK_BIND`.
