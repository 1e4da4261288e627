# tuxctl

A control center for Linux in the terminal: an overview of the system, its processes, services,
journal and network interfaces, in five tabs.

The logic is a library whose behaviour is stated in contracts and proved by Verus. A thin program
around it reads files, runs `systemctl` and `journalctl`, draws with Ratatui, and sends signals.

## The library (`src/`)

| Module | What it holds |
| --- | --- |
| `app` | The state of the application and what every action makes of it. `app::state` is the model that the contracts speak of; `app::laws` and `app::process_laws` hold what follows of the application as a whole. |
| `action`, `event` | Actions, and which key or mouse event means which. |
| `scheduler` | Applying actions in turns, and when to draw. |
| `linux` | What is read from the kernel, `systemctl` and `journalctl`: parsers, samplers that keep what they have to remember between two readings, and the decisions of the background collectors. |
| `cli`, `about`, `shutdown` | Arguments, what the program is called, signals that end it. |
| `text`, `numerals`, `number`, `order`, `table`, `likeness`, `time` | What the rest is built on. |

Times are nanoseconds since the program started. Floating point stays outside: the library gives
exact quotients (`Rate`, `Utilization`, `CpuShare`), the program divides, and the library takes the
result back as the bits of a `Number`, which it can compare and clamp.

What is taken on trust is marked where it stands: four functions of the standard library on text
(`text`), the numbers of signals and errors from `libc` (`linux::signal`), and reading JSON with
`serde_json` (`linux::journal_reader`).

## Promises

- A signal is sent only after it was confirmed, with `Cancel` chosen at first, and only to the
  process that was meant: a process that took over its PID is spared.
- A failed reading leaves the last good data on the screen.
- The journal is kept in a bounded buffer, and what is dropped is counted.
- Selections stay on what was selected, by identity and not by row, and in view.
- Pinned processes lead the list in their own order, whatever the column that is sorted by.
- Collectors that stop delivering are marked, a pause is not taken for that, and background data
  is drawn no more often than once per frame.

Each of these is a proof function or a contract in `src/`.

## The program (`app/`)

`app/main.rs` runs the loop. The other files each stand for one thing that the library cannot do
itself: the terminal, the clock, the collectors' threads, files, processes and floating point.
