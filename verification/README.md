# xamppify

The logic of a desktop workspace for a local XAMPP installation, written in
Verus: deployments in `htdocs` and their virtual hosts, the hosts file,
configuration files, Apache and MySQL logs, certificates, backups, database
results, file sync, service control, machine discovery and scheduling. Each
function states what it computes in `requires` / `ensures`, and Verus proves it.

## Layout

- `src/` — the verified library. Texts are modelled as `Seq<char>`; each module
  keeps its spec functions next to the executable code that meets them.
  - `text`, `text_lines`, `unicode` — characters, trimming, splitting,
    `str::lines`, decimal numbers, and the case mappings of the standard library.
  - `paths` — locations inside the installation and the check that a resolved
    path lies inside it.
  - `deployment` — names, metadata, starter templates, `httpd-vhosts.conf`
    (`vhosts`, with the laws about reading back what was written in
    `vhost_laws`), hosts-file entries and deployment backups.
  - `log_parser`, `logs`, `config_editor`, `ssl_manager`, `database`,
    `backup`, `file_browser`, `file_sync`, `search`, `service`, `credentials`,
    `discovery`, `sync_scheduler`, `performance`, `clock`, `sorting`, `store`.
- `tests/` — tests of the library on concrete values.
- `app/` — the application around the library: file and network I/O, processes,
  serde copies of the library's types, and the event plumbing.

Calls into other crates (`chrono`, `regex`, `grep`) and into parts of `std` that
Verus has no specification for stand behind small trusted wrappers whose doc
comments say what their contracts claim.
