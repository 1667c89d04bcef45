# k8s_sidecar

A sidecar that keeps a folder in step with ConfigMaps and Secrets of a
Kubernetes cluster. Every data key of a resource that has the wanted label
becomes a file; a file goes when its key or its resource does. After a change a
script can be run and a URL requested.

## Layout

- `src/` is the library: what the sidecar decides and computes, with contracts
  that Verus proves. It works on no file and speaks to no server; all that it
  reads is the clock and the time zone, for log lines. Longer jobs, such as the
  start, a sync from a list or the writing of a file, are handed out step by
  step: each step says what is to be done next, and the outcome is handed back.
  `src/outside.rs` holds what is taken from other crates on trust, `src/laws.rs`
  what holds of the sync as a whole, and `src/effect.rs` what it leaves in the
  folders.
- `app/` is the program around it: files, HTTP, the Kubernetes API, and `main`.
- `tests/` runs the library on concrete values.

## Settings

The sidecar is set up by environment variables. `LABEL` and `FOLDER` are needed;
the others have defaults.

| variable | meaning |
|---|---|
| `LABEL`, `LABEL_VALUE` | the label of wanted resources, and its value |
| `FOLDER`, `FOLDER_ANNOTATION` | where files go, and the annotation that names another folder |
| `RESOURCE` | `configmap`, `secret` or `both` |
| `RESOURCE_NAME` | wanted names: `name`, `type/name` or `namespace/type/name`, separated by commas |
| `NAMESPACE` | namespaces, separated by commas, or `ALL` |
| `METHOD` | `LIST` syncs once, `SLEEP` polls, anything else watches |
| `SLEEP_TIME`, `ERROR_THROTTLE_SLEEP` | seconds between polls and after failures |
| `SCRIPT` | a script that is run after changes |
| `REQ_URL`, `REQ_METHOD`, `REQ_PAYLOAD`, `REQ_SKIP_INIT` | a request that is made after changes |
| `REQ_USERNAME`, `REQ_PASSWORD`, `REQ_USERNAME_FILE`, `REQ_PASSWORD_FILE`, `REQ_BASIC_AUTH_ENCODING` | credentials for requests |
| `REQ_RETRY_TOTAL`, `REQ_RETRY_BACKOFF_FACTOR`, `REQ_TIMEOUT`, `REQ_SKIP_TLS_VERIFY` | how requests are made |
| `ENABLE_5XX` | take answers of overloaded servers as they are |
| `UNIQUE_FILENAMES` | file names that say which resource they come from |
| `DEFAULT_FILE_MODE` | the mode of written files, in octal notation |
| `IGNORE_ALREADY_PROCESSED` | pass over versions that were processed before |
| `WATCH_SERVER_TIMEOUT`, `WATCH_CLIENT_TIMEOUT` | when watch connections end |
| `SKIP_TLS_VERIFY`, `DISABLE_X509_STRICT_VERIFICATION`, `KUBECONFIG` | how the cluster is reached |
| `HEALTH_HOST`, `HEALTH_PORT` | where the health endpoint, `/healthz`, listens |
| `LOG_LEVEL`, `LOG_FORMAT`, `LOG_TZ`, `LOG_CONFIG` | how and where messages are logged |

The flags `--req-username-file` and `--req-password-file` go before the
variables with the same purpose.
