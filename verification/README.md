# moirai

A workflow engine library. Plugins declare node specifications and data
types; workflow definitions wire node instances together with data and
control edges; jobs run their nodes in dependency order.

- `src/` is the library, checked by Verus: the plugin registry and plugin
  manager, the system and converter plugins, workflow validation, the job
  run (which node is ready, with which inputs, and what its result makes
  ready), the dependency graph of a job, and the step-by-step drive of a
  workflow graph.
- `app/` holds what touches the outside world: reading configuration,
  plugin and workflow files, the asynchronous job manager and event bus,
  worker threads, and running node processes.
- `tests/` exercises the library.
