# onca

File-system paths, a virtual file system's bookkeeping, and the HID and input-device
rules of a game engine, written in Verus with their behaviour stated as contracts and
proved.

Paths follow the Windows rules only: `\\` and `/` both separate components, drive letters,
shares and the `name:` roots of the virtual file system are recognized, and whether a path
is absolute is answered as on Windows (`path::WINDOWS_PATHS`), on every target.

## Layout

- `src/` — the verified library.
  - `path_model.rs`, `path_root.rs`, `path_component.rs`, `components.rs`: how a path
    text splits into a root and components, as spec functions and as the iterator that
    walks them from either end.
  - `path.rs`, `path_buf.rs`, `path_order.rs`: borrowed and owned paths,
    their comparison, ordering and hashing, and what pushing, popping and stripping do to
    the components.
  - `vfs_parts.rs`, `macro_subst.rs`, `normalize.rs`, `vfs.rs`: macros inside components,
    their replacement, normalization of a path against a working directory, mount points
    and the virtual file system.
  - `name_filter.rs`, `entry.rs`, `fs_types.rs`: name filters with `*` wildcards, entry
    types and the plain data of file metadata.
  - `win32_flags.rs`: the access rights, share modes, dispositions and flags a file is
    opened with on Windows, the permissions an access mask grants, the entry flags of file
    attributes, and the kind of change a watcher notification reports.
  - `hid_usages.rs`, `usb_vendors.rs`, `hid.rs`: HID usages, USB vendor tables, HID
    capabilities and the bit extraction of report values, and how they are displayed.
  - `display.rs`: numbers as decimal and hexadecimal text.
  - `raw_input.rs`: the vendor and product ids in a raw input device's name, and the usage
    of a raw input mouse or keyboard.
  - `input.rs`, `mouse.rs`, `gamepad.rs`, `dualsense.rs`, `user.rs`, `device_storage.rs`:
    device types, hat switches, trigger states, control schemes, mouse and gamepad button
    states, controller report bit fields, users and generational device handles.
  - `input_definitions.rs`: device definitions (kinds, buttons, axes, directional pads,
    touch surfaces and sensors) and how they are read from the items of a TOML document.
  - `keyboard.rs`: key codes, and the key a Windows virtual-key number stands for.
  - `logging.rs`: log levels, categories and locations, and a logger's writer slots and
    message cache.
  - `laws.rs`, `push_laws.rs`, `name_laws.rs`: properties that relate several operations.
- `tests/` — tests on concrete values.
- `app/` — the operating-system edges: the working directory of the process,
  normalization against it, and the logger's lock and its writes to the terminal and the
  writers.
