# aws-utils

Release and AWS-session tooling: changelog rendering from conventional
commits, JIRA ticket-key extraction, assume-role output handling,
layered configuration, S3 key audits, CodePipeline approval lookup and
an interactive terminal browser.

## Layout

- `src/` is the library. Its functions are verified with Verus, except a
  few trusted wrappers marked `#[verifier::external_body]` around outside
  calls (`String::push`, the clock through chrono, the OS directories
  through dirs, and Unicode character classes through regex-syntax),
  whose contracts are believed. The contracts are stated over `Seq`,
  `Map` and spec functions, and the cross-function laws (round trips,
  undo of navigation moves, account add/remove, stable sorting, the case
  and shape of ticket keys) are public proof functions.
  - `text`, `paths`, `sorting`, `keyset`, `base64`: shared string, path,
    ordering and encoding building blocks.
  - `changelog`, `jira`, `release`, `github`, `remote`: commit parsing and
    grouping, ticket keys and JQL, repository names, and the release run
    as a state machine (revisions → changelog → confirm → approve → tag →
    push), whose steps the executable performs.
  - `role`, `session`: parsing of assume-role output and rendering of the
    shell exports that restore a session.
  - `config`, `recipe`: accounts, defaults, JIRA and GitHub settings,
    project registry, the precedence of command-line, project and global
    values, and the step-by-step run of a recipe.
  - `s3`, `pipeline`: models of bucket listings, deletion markers and
    pipeline stage states, and the decisions taken on them.
  - `tui`, `views`: the browser's state machine (keys to actions, tabs,
    list selection, stage fetches) and the text of each pane.
  - `cli`: the command tree as plain data.
- `app/` is the executable: argument parsing, file and network I/O, the
  AWS SDK calls, git, terminal drawing and the event loop. It hands plain
  values to the library and acts on what comes back.
- `tests/` runs the library on concrete inputs.
