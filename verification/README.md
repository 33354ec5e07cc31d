# baidupan-cli

A terminal client for Baidu Netdisk on the API of its open platform, with the logic verified by
[Verus](https://github.com/verus-lang/verus).

- `src/` is the library. It holds no I/O: it says which request comes next, what an answer means,
  which steps the file system takes, and how files are encrypted. Every function states what it does
  in its contract, and `src/laws.rs` states what holds of them together.
- `tests/` runs the library, with the crates that it calls.
- `app/` is the program around it: the command line, the network, the file system and the
  environment.

## Layout of the library

| module        | what it is about                                                    |
|---------------|---------------------------------------------------------------------|
| `api.rs`      | file operations: remote paths, requests, answers, errors            |
| `auth.rs`     | authorization by device code                                        |
| `batch.rs`    | tasks in a row, and the report on them                              |
| `cli.rs`      | commands, resolved to the directory of the application              |
| `config.rs`   | settings, credentials, the stored token                             |
| `crypto.rs`   | encrypted files, whole (AES-256-GCM) or in chunks                   |
| `error.rs`    | errors and their words                                              |
| `files.rs`    | steps on the file system                                            |
| `hints.rs`    | what error numbers mean                                             |
| `http.rs`     | requests as data                                                    |
| `json.rs`     | JSON, read and written through `serde_json`                         |
| `laws.rs`     | what holds of the library as a whole                                |
| `path.rs`     | the shape of local and remote paths                                 |
| `session.rs`  | uploads and downloads as they go                                    |
| `text.rs`     | text as characters                                                  |
| `transfer.rs` | digests, resume states and sidecar files                            |

## Settings

- `BAIDUPAN_APP_KEY`, `BAIDUPAN_APP_SECRET`, `BAIDUPAN_APP_NAME`: the credentials of the application.
  The remote paths of commands begin with `/apps/<name>`.
- `BAIDUPAN_CRYPTO_PASSPHRASE`: the passphrase for `--encrypt` and `--decrypt`, which fail without one.
