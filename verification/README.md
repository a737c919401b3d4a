# pulsemon

A terminal system monitor: CPU, memory, disks, GPUs, processes and ports,
with a command palette and the means to kill a process from the interface.

The crate has two parts.

- `src/` is the library, written in Verus and verified. It holds the
  interface's state machine (every key and palette command, stated in
  `keys.rs` as a function from state and key to state and kill order), the
  stable table sorts and filters, the parsers of the platforms' socket
  listings (`/proc/net/*`, `lsof`, `netstat`) and of the GPU tools' output
  (`rocm-smi`, `intel_gpu_top`, `ioreg`, `powermetrics`), byte formatting,
  the rolling usage histories and the screen geometry. `laws.rs` states what
  holds across keys and calls (Tab and Shift+Tab undo each other, only
  presses count, sorts keep their rows, printed numbers parse back, ...).
- `app/` is the program around it: argument parsing, the terminal and its
  event loop, the collectors that read the operating system (sysinfo, NVML,
  the command-line tools) and the screens drawn with ratatui. Floating-point
  figures (usage percentages, GPU readings) are handled there; the library
  keeps usage values as `f32` bit patterns and GPU readings as the number
  texts the tools printed.

`tests/` runs the library on concrete inputs.
