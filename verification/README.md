# vmux

A terminal multiplexer for coding agents. A daemon holds a session of workspaces, tabs and
panes; clients ask it over a socket. What the daemon and its clients decide and compute is a
library whose functions are verified with Verus; the program around it does the input and
output.

## The library (`src/`)

- `text`: characters, lines, numbers, byte lengths, the order of texts, lists of pairs.
- `model`, `protocol`: panes, workspaces, sessions, and the requests to a daemon.
- `daemon`: what becomes of a session. `dispatch` says for each request what changes and what
  is left to do outside, `finish` what the session takes in once that is done; `workspaces`, `navigate`, `panes`, `plans` and `handlers` are the
  changes themselves. `live`, `stream`, `osc`, `emulator`, `terminal`, `screen` and
  `output` read what programs write, `status`, `session` and `titles` what that means for the user. `snapshot` and
  `capture` are what clients are shown. `sockets`, `ports` and `portmap` find the ports that
  panes listen on, `places` the directories that are meant, `view_size` gives panes the size of
  their smallest viewer, `lifecycle` and `startup` begin and end things, `restart` states what
  survives that, and `refusals` puts errors into words.
- `detect`: rules that read the screens of agents.
- `browser`: pages, links, forms and expressions on them.
- `input`: keys and what they send.
- `shell`: words of command lines.
- `cli`: what commands of the program ask for.

Contracts speak of views: a `String` is a sequence of characters, a `Vec` a sequence of its
items. Public proof functions state what holds of several functions together.

Calls into other crates (`vt100`, `regex`, `shell-words`, `serde_json`) and into parts of the
standard library stand in small functions whose contracts are taken on trust; their doc
comments say what is claimed.

The names of the agent that is looked for first are not in the library: callers give them
(`AgentNames`). The program gives those of the agent's variant, unless the settings name
others.

## The program (`app/`)

The command line, the socket, terminals, files, `/proc`, `curl` and `git`. Settings are read
from `config.toml` in the configuration directory of the user, rules for the screens of agents
from `manifests/` beside it.

## Tests (`tests/`)

One file for each part of the library.
