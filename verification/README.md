# openshell-vm

Virtual machines for sandboxes, verified with [Verus](https://github.com/verus-lang/verus):
handing a GPU of the host to a machine and taking it back, launching a machine with its
network, the compute driver that runs one machine for each sandbox, and the start of the
server that uses such a driver.

## How it is built

`src/` decides and never performs anything itself. A procedure asks for an operation
through a `Dialogue`, and where the reply is not there yet it returns `None`. The program
around it performs the pending request, records the reply, rewinds the dialogue and runs
the procedure again, which then gets one step further. So every contract can say exactly
what is asked, in which order, and what each sequence of replies leads to: that is what
the `*_run` functions state. The `law_*_is_replayed` laws show that running again is
harmless.

| Module | What it holds |
|--------|---------------|
| `dialogue`, `fault` | the exchange of requests and replies, and failures |
| `text`, `paths`, `order`, `text_map` | texts, paths, sorted texts, maps with text keys |
| `sysfs`, `guarded` | the sysfs tree, and writes to it under a time limit |
| `gpu` | checking, choosing, binding and restoring a GPU |
| `vm` | launching a machine, its network proxy, its exit code |
| `driver` | creating, watching and deleting sandboxes |
| `server` | configuration and start of the server |

`app/` performs: files, processes, signals, sockets and gRPC. It needs the generated
messages of the `openshell_core` crate.

`tests/` runs the library against scripted hosts.
