# komorebi-tray-grid

A Windows system tray indicator for the komorebi tiling window manager. Each
monitor has a tray icon: a grid of three by three cells that shows the first nine
workspaces of the monitor. The menu of an icon lists the workspaces and their
windows, switches to them, and holds the autostart switch.

`src/` decides and `app/` performs. The library is pure: it takes komorebi's
state, menu activations, hotkey presses, clock readings and the outcomes of
system calls as plain values, and returns what to draw, to send or to show. It is
written in Verus, and every function in it is proved against its contract. The
proofs rest on the contracts of three functions of the standard library that are
taken on trust, all in `text`: `String::push`, `String::from_utf8` and
`str::to_uppercase`.

| Module | What it does |
| --- | --- |
| `komorebi` | projection of komorebi's state; subscription, backoff and watchdog |
| `render`, `icon` | the pixels of the tray icons and of the launch icon |
| `menu`, `menu_id` | the menus, and identifiers that can be read back |
| `tray` | which icons to create, update and drop |
| `app`, `session`, `event` | the menu lock, menu activations, the hotkey cycle |
| `config`, `windows_theme` | settings, colors and the color scheme |
| `autostart`, `single_instance`, `hotkey`, `paths` | registry entry, mutex, hotkey and file names |
| `text`, `table`, `order`, `model`, `utils` | strings, maps, sorting and views |

Properties that span several functions are stated as proof functions whose names
begin with `law_`.

`app/` holds what touches the system: the event loop, the tray icons, the
registry, the sockets, the threads, and the JSON form of komorebi's state and of
the configuration file.
