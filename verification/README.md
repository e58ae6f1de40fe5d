# grimoire

A daemon that runs agents: it starts and supervises them, passes mail between
them, wakes them on time and on changes, runs plans ("scrolls") of dependent
tasks, and shares workspaces with other daemons.

`src/` is the library. It holds what the daemon and its workers decide, as
functions on plain values, each with a contract that Verus proves:

- `scroll_parser`, `scroll_keeper`: plans in Markdown, their graph of tasks,
  and how each task moves from pending to done.
- `scheduler`, `supervisor`: which queued rows start, what is mailed to a woken
  agent, and when a failed agent is restarted or given up.
- `wake_registry`, `wake_sources`, `calendar`: what wakes an agent.
- `rpc`, `server`: what each request is answered, and who may ask.
- `workspace_db`, `workspace_registry`, `workspace_watcher`: workspaces, their
  shared memory, and the events that go to other daemons.
- `worker_registry`, `worker_rpc_server`, `grimw`: workers on other machines.
- `providers`, `sandbox`: the command lines of the agents' processes.
- `text`, `bytes`, `pieces`, `decimal`, `order`, `json`, `globs`, `paths`,
  `versions`, `webhook`: what the rest is built on.

Functions that relate several operations are stated as public proof functions
at the end of the module that they speak of.

Calls into other crates stand behind small functions whose contracts Verus
takes as given. Each says in its comment what it calls and what it claims.

`app/` is the program around the library: sockets, files, processes, the
database on disk, and the configuration.

`tests/` runs the library from outside.
