# mergefox

The logic of a Git client with a graphical interface, verified with Verus.

- `src/` is the library. It draws nothing and reads no files: it decides what
  the windows show, what a click asks for, how conflict markers are read and
  resolved, how hosts answer, and what is kept of secrets. Every function has a
  contract.
  - `providers/`: GitHub, GitLab, Gitea and the other hosts, their replies and
    errors, sign-in, access tokens, SSH keys and the state of checks.
  - `secrets.rs`: the file of secrets and the store in front of it.
  - `ui/`: conflicts, diffs, previews, the commit graph and the windows.
  - `text.rs`, `paths.rs`, `calendar.rs`, `git.rs` and their neighbours: what
    the rest is built on.
- `tests/` runs the library on concrete values.
- `app/` is ordinary Rust around the library: drawing with egui, files,
  threads, and requests to the hosts.

Functions named `law_..` are theorems that relate several functions, such as
that resolving all conflict blocks leaves none, or that a secret that was saved
is read back.
