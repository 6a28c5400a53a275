# mox

A terminal UI for managing Proxmox VMs. `mox` reaches a Proxmox node over SSH and drives its own
`pvesh` and `qm` commands, so a stock node with SSH key access is all it needs.

- `mox` — a live dashboard: status, CPU and memory gauges, details, start, stop, destroy, create
- `mox list` — a table of the VMs, or JSON
- `mox doctor` — the connection and the state of the node
- `mox init` — the interactive setup, which writes `~/.config/mox/config`
- `mox setup-access` — a key of its own, installed on the node
- `mox template` — the base template, built on the node

## Layout

`src/` is the library, written in Verus: every function states what it returns, and Verus proves
it. It does no input or output. Where the program has to act on the world, the library says what
to do next and is told what came of it.

| module | what it holds |
|--------|---------------|
| `text`, `number` | lines, words, trimming, padding; decimal numbers, addresses, sizes |
| `encode` | base64, shell quoting, and that quoted arguments cannot break out |
| `config`, `round_trip` | the settings, and what is kept when they are written and read back |
| `model` | VMs and the addresses inside them |
| `node` | what is asked of the node, and what its answers mean |
| `sshconfig` | the blocks of `~/.ssh/config` |
| `dashboard`, `dashboard_laws` | the dashboard's state, keys and news, and what holds of it |
| `screen`, `layout` | what the dashboard shows, and where |
| `fetch` | the background worker |
| `init`, `setup`, `report` | the setup wizard, the setup of access, what is printed |

`app/` is the program around it: the command line, processes, files, the terminal, JSON, and the
percentages, which are floating-point numbers.

`tests/` runs the library.

The scripts that create a VM and build the template, `create.sh` and `template.sh`, lie beside the
program. `mox::node::Script` names their arguments.

## What is not proved

Four facts are taken from outside: what `String::push` of the standard library does, that its
`Debug` text of a string depends on the string alone, and where `ratatui`'s `Layout::areas` and
`Layout::split` put a centered box and the three parts of the screen. Each is stated where it is
used, in `text`, `node` and `layout`.
