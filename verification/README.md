# openclaw_manager

The decision logic of the OpenClaw manager (a desktop tool that installs
Node.js, Git and OpenClaw and runs the OpenClaw gateway), written in Verus
and proved against its contracts.

- `src/` is the verified library. Each module states its behaviour over
  mathematical models (`Seq<char>` for text, `JsonView` for JSON) and proves
  it:
  - `text`, `number`: trimming, splitting, line splitting, decimal parsing
    and printing, as the standard library does them;
  - `version`: Node.js and OpenClaw version checks and the version order;
  - `procinfo`: reading `ps`, `lsof`, `netstat` and `wmic` output;
  - `service`: stopping, starting and the log view of the gateway service;
  - `config`: the defaults written into `openclaw.json`;
  - `bundle`: the offline bundle and the installation protocol;
  - `proxy`: download URLs, mirror choice and resumed downloads;
  - `nodeprobe`: where Node.js is looked for and in which order;
  - `install`: the results reported by the installation commands;
  - `terminal`, `encoding`: the terminals opened for the user, including the
    PowerShell `-EncodedCommand` text (UTF-16LE in base64).
- `app/` is the ordinary Rust around it: running programs, files, network,
  threads, and JSON (de)serialisation. It hands the library what it
  observes and performs what the library decides.
- `tests/` runs the library on concrete values.
