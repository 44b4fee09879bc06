# labwc

The logic of a Wayland window-stacking compositor, written in Verus: every
function in `src/` carries a contract that the verifier proves.

- `src/` is the verified library: geometry and edges, views and their
  state, workspaces, focus, actions, menus, the scene graph with deferred
  cleanup, swapchains and frame synchronisation, compositor passes, EDID and
  DRM connector probing, outputs, Openbox themes, rc.xml settings, XDG
  desktop entries, autostart and application lists, the panel, the IPC
  protocol's answers, and the control centre's settings. What is read from
  the disk or the environment comes in as plain values; calls into other
  crates (quick-xml, `std::path`) go through small trusted wrappers whose
  contracts are stated beside them.
- `tests/` runs the library on concrete values.
- `app/` is the program around it: command line, environment and sysfs
  reads, process spawning, the IPC socket, the inotify watcher, and the
  floating-point code (animation, cursor, pointer warps, colours).
