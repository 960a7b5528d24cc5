# dsh_desktop

A native macOS shell around DeepSeek Harness (`dsh web`). The library in `src/` holds the shell's
decisions, each with a contract that Verus proves; `app/` performs them with Tauri and AppKit.

| module      | what it decides                                                             |
|-------------|-----------------------------------------------------------------------------|
| `start`     | reuse the running engine, attach to one, or spawn one                       |
| `boot`      | what to launch, and when the engine is up or has failed                     |
| `engine`    | the engine's state, what each action makes of it, and what is reported      |
| `shutdown`  | when a process that was asked to terminate is killed                        |
| `ports`     | the port to run on                                                          |
| `http`      | requests, status, the engine's page, the token and its cookie               |
| `auth`      | the scripts that hand the cookie to the page                                |
| `discovery` | where the `dsh` program is                                                  |
| `settings`  | workspace, preferred port, home and data directories                        |
| `menu`      | the tray and the menu bar, and what choosing an item does                   |
| `paste`     | which copies paste as file paths, and the text that is pasted               |
| `report`    | lines for the log                                                           |
| `path`      | Unix paths as bytes                                                         |
| `ascii`     | ASCII text within bytes                                                     |
| `text`      | searching, trimming, lines, words and numbers                               |

Paths are the bytes of Unix paths. Durations are milliseconds. The laws that span several
functions are the public proof functions whose names start with `law_`.
