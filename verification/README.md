# Antares

Antares manages union filesystem overlays for build jobs: an upper layer for what a job
writes, an optional CL layer, and the read-only Dicfuse below. The manager tracks which jobs
are mounted, keeps that in a TOML file, and takes back a mount that turns out not to be usable.

`src/` is the library, written and proved in Verus.

- `text`, `fs_path`: repository paths and file system paths
- `config`, `jobs`, `manager`: the records, the tables keyed by job, and the manager
- `outcome`: what is asked of the outside world, what it replies, and errors
- `save`, `probe`, `mount`, `umount`: saving the state, probing a mountpoint, and the two kinds
  of run
- `path_laws`, `state_laws`, `mount_laws`, `success_laws`, `umount_laws`: what holds of all of
  these together

`app/` does the I/O: it performs the actions that a run asks for and hands back the replies.
`tests/` runs the library against a scripted world.
