# wok_core

A small dependency-injection world for systems that read and write shared
resources, with the helper pieces built around it, written in Verus and
proved against its contracts.

- `src/` is the verified library:
  - `access`, `meta`, `world`, `gateway`: the accesses each system declares,
    the locks the world holds while systems run, and the handles through
    which systems reach the world's state;
  - `resources`, `any_handle`, `local_any_handle`, `commands`: resources
    stored by id, and commands that change them at the next tick;
  - `param`, `system`, `schedule`, `dependency_graph`: parameters that
    register accesses, systems, and the order in which conflicting systems
    must run;
  - `params_client`, `trigger`: deciding which requests of code outside the
    world may be answered now and keeping their access locks under keys
    until they are given back, and running an event handler when its
    accesses are free;
  - `clap_routes`: picking the handler of a command line from its chain of
    subcommands;
  - `valigate`: validation gates and the display of their errors;
  - `serdeenv`: the key/value view of environment variables;
  - `attr`, `bind_derive`, `param_derive`: attribute parsing and the plans of
    the derive macros, over a model of the syntax tree;
  - `record`, `dust_record`, `assets`: database records and asset origins.
- `tests/` exercises the library on concrete values.
- `app/` holds what the library leaves to plain Rust: serde's traits for the
  environment reader, the token output of the derives, command-line parsing
  and the channels of the parameter client.
