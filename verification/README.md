# resolver_hook

A hook DLL for a game server that diverts the end of the animation-state
update into a yaw resolver, built around a library verified with Verus.

- `src/` is the verified library: the encoding of the `jmp`/`call rel32`
  instructions and the trampoline (`encode`, `patch`), the enable/disable
  state of a patch held in a `portable_atomic::AtomicBool` (`flag`,
  `patch`), module and procedure lookup results and their errors
  (`error`, `text`), the choice of the heap behind allocations (`heap`),
  the installation of the hook (`hooks`), the decisions of the resolver
  (`resolver`) and the flat storage form of a dense layer's parameters
  (`matrix`).
- `app/` is the DLL around it: Windows calls, memory writes, console
  output, the global allocator and the floating-point resolver network.
- `tests/` runs the library on concrete values.
