# cyber_pumpkin

The behavior core of a Local + SFTP file-transfer client, written in Verus:
every function in `src/` is verified. Where a result depends on what a
backend, a journal store or a secret store answers, or on a cancellation
request from another thread, the contract states what holds whatever the
answer, and the decision taken on each answer stands in a verified function
of its own with an exact contract (for example `presence`, `recovery_action`,
`stamp_changed`).

## Layout

- `src/` — the verified library.
  - Domain and vocabulary: `domain`, `backend` (the filesystem trait a
    backend implements), `job`, `transfer` (file copies and the transfer
    lifecycle), `tree` (recursive copies), `cancel`.
  - Safe replacement and recovery: `reliability` (staged copies finalized by
    rename, with backups and journals), `recovery` (journal model and the
    startup sweep), `file_ops`.
  - Copy runtime and synchronization: `runtime` (conflict policies, Keep Both
    names, retry policy), `rules`, `paths`, `sync_plan`, `sync`.
  - Application state: `operations`, `scheduler`, `decisions`, `history`,
    `application` (pane navigation), `preferences`, `profiles`, `trust`,
    `secrets`, `connection`, `remote_edit`.
  - SSH/SFTP configuration and verdicts: `ssh`, `sftp`.
  - What the desktop panes show and decide: `display` (listings, sizes, ages),
    `copy_flow`, `servers` (profiles, quick connect, host trust),
    `permissions`, `sync_view`.
  - Command-line words and messages: `cli`, `messages`, `text`.
- `tests/` — tests of the library, including an in-memory backend.
- `app/` — the `cpk` command-line program: the host filesystem and SFTP
  backends, JSON persistence, the keyring adapter and argument handling.

Public proof functions named `lemma_*` state properties of the library as a
whole, for example that navigating back and then forward returns to the same
location, or that a pane lists exactly the entries it shows.
