# gpupeek

A dashboard for graphics cards, served as a local web page: utilisation, memory, temperatures,
power, fan and clocks once a second, and control of fan, power cap and voltage offset on AMD
cards. NVIDIA, AMD and Intel cards are found by themselves, in this order; without one of them a
made-up card takes their place.

## Layout

- `src/` is the library, verified with Verus. It holds the decisions: which card is used, what the
  driver's files mean, what may be set, what is written where, how the fan follows its curve, how
  settings are saved and brought back, what clients are told.
- `app/` is the program around it: files, drivers, random numbers, the web server, and the
  arithmetic on floating-point numbers.
- `tests/` runs the library on concrete values.

## Numbers

Floating-point numbers enter the library as bit patterns (`double`), which it compares and passes
on. Where a result takes arithmetic, the library returns the operations (`formula`), and the
program carries them out. Statements about such results in the library speak of exact arithmetic.

## Modules

| Module | Subject |
|--------|---------|
| `double`, `formula` | floating-point numbers and what is computed from them |
| `text` | splitting, trimming, reading and writing texts |
| `gpu_data`, `gpu_control` | measurements and settings |
| `fan_curve` | order of curves, and what holds of every curve |
| `sysfs`, `amd_files` | the files below `/sys` |
| `amd`, `intel`, `nvidia`, `mock_data` | the kinds of card |
| `config` | the settings file |
| `server` | starting, answering and publishing |

## Running

The server listens on `0.0.0.0:3333`. With `--daemon` or `-d` no browser is opened. Settings are
kept in the file that `GPUPEEK_CONFIG` names, or in `gpupeek/config.json` below `XDG_CONFIG_HOME`
or `~/.config`.
