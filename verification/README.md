# otunnel

A client that connects local MCP services to tunnels. The decisions of the client are a library that is
verified with Verus; the program around it does the input and output.

- `src/` is the library. Each function states in its contract what it returns or changes, and Verus
  proves it. Among its modules:
  - `config`: the configuration, its references, its canonical form and its checks;
  - `control`: what is asked of the service, how polls follow each other, how answers are delivered;
  - `runtime`: what a running tunnel does next, and what is known of it;
  - `protocol`: the messages that pass through;
  - `harpoon` and `template`: the targets that the other side may call, and how;
  - `oauth`: the search for the descriptions of servers;
  - `health`, `metrics`, `proxy_health`, `diagnostic`: what is told of a runtime;
  - `management`, `admin`, `cli`: the tunnels of the service, the runtimes of this machine, and the
    commands for them.
- `tests/` runs the library on concrete values.
- `app/` is the program: the command line, files, processes, sockets and requests.

What the library has from other crates, it has through functions whose contracts are believed; the
comment above each names the function that it calls and what is claimed of it.
