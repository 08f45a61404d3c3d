# autoinstall

A command-line installer for developer tools on Linux (ossutil, Miniconda, nvm,
Node.js, PM2, FFmpeg, Docker, tosutil): it makes sure of each tool's system
packages through apt, then downloads, installs and checks the tool.

The decisions are a verified library (`src/`); the program in `app/` only reads
the command line and the environment, runs the commands the library hands out,
and prints.

- `src/tools.rs`: the supported tools, their fixed order, and their system packages.
- `src/commands.rs`: the shell commands the installers build.
- `src/program.rs`: each routine of the installer as a short program of instructions.
- `src/machine.rs`: the installer as a state machine that runs those programs one
  step at a time, handing out one command at a time and taking back its outcome.
- `src/cli.rs`: the command line and the usage text.
- `src/laws.rs`: properties proved of the routines and of runs of the machine.
- `src/routine_laws.rs`: laws of single routines: the refresh of apt's lists, the
  FFmpeg installer, and routines made of shell steps.
- `src/termination.rs`: every run ends, within a bound for each routine.
