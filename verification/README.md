# pam_gocryptfs

A PAM module that mounts the gocryptfs file system of a user when a session
opens, unmounts it when the session closes, and changes its passphrase along
with the password.

- `src/` is the library: every decision of the module, written and proved in
  Verus. It makes no system call. Where the module alternates between calls and
  decisions, the library takes the outcome of one step and says what the next
  step is.
- `app/` is the module itself: the entry points that PAM calls, and the system
  calls behind the steps that the library asks for.
- `tests/` runs the library on concrete values.

## Settings

| | default | argument or line |
|---|---|---|
| directory of the cipher data and the toggles | `~/.gocryptfs` | `cipherdir=` |
| mount point | `~/Private` | `mountpoint=` |

The cipher data is in the directory `gocryptfs` of the first. A line of the file
`~/.gocryptfs/config` takes precedence over an argument of the module, and that
over the default. `~/`, `%(USER)`, `%(HOME)`, `%(USERUID)` and `%(USERGID)` are
expanded. Lines that begin with a dash, there and in the file `mount-options`
beside the toggles, are flags that are passed on to gocryptfs. Of `mount-options`
those are left out that would keep gocryptfs in the foreground, `-f` and `-fg`.

Users opt in by files in the first directory: `auto-mount` and `auto-umount`.

## Where the laws are

The laws of the library are public proof functions whose names begin with
`law_`. They stand behind the functions that they are about: what becomes of a
path (`path`, `expand`, `config`), when something is mounted, unmounted or
changed (`hooks`, `change`, `mount`), who does it (`privileges`), how long it may
take (`wait`, `user`), and what happens to a passphrase (`password`).

What is taken on trust stands in `outside`: values of `libc`, and three functions
of the standard library.
