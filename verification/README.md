# reina_manager

The core of a game manager: resumable downloads, checks of installed files,
backups of a database and of saves, and the launching of games.

`src/` is the library. Its public functions carry contracts that Verus proves; the
few calls into outside crates and the standard library whose contracts are taken
on trust say so in their doc comments.
What touches a disk, a socket, a process or a bus is described by values: the
library says what to do next, is told what came of it, and decides. The same
machines carry the laws of the library, such as that a control file never
claims more than was written, that an old save outlives the installation
of a new one, or that a setting is switched only after the new place holds a
verified copy.

| Module | What it decides |
| --- | --- |
| `download` | pieces, resuming, connection limits, retries, the session |
| `install` | requests, checksums, progress of a download task |
| `backup` | names, staging, batches, covers, import of a database |
| `backup::savedata` | archives, restoring, deleting, moving the backup root |
| `launch` | command lines, Steam, systemd scopes, the Proton helper |
| `proxy`, `migration` | client settings and data migrations |
| `text`, `host` | text building blocks and plain I/O values |

`app/` does the work that the library asks for, and holds the serialised forms
of its results. `tests/` runs the library on concrete values.
