# bose_cli

A terminal tool for Bose headphones: it keeps the desired listening mode,
noise control, immersive audio and EQ in `$HOME/.config/bosecli/config.toml`
and writes them to the headset as BMAP frames over Bluetooth Classic RFCOMM.
Only the Bose QuietComfort Ultra Headphones (2nd Gen) take configuration
writes; other Bose models are recognized and refused.

The logic is a Verus library, proved against its `requires`/`ensures`
contracts:

- `src/domain.rs`, `src/config.rs`: modes, noise, immersive audio, EQ and the
  configuration with its validation and custom-mode edits.
- `src/bmap.rs`: frame encoding and parsing, response validation, and sending
  through a transport given by the caller.
- `src/models/`: the model registry, name matching, and the QC Ultra 2 sync
  plan, payload encoders and battery readback.
- `src/cli.rs`: the commands' effect on the configuration and the
  save-then-sync transaction with rollback.
- `src/tui/`: the interactive UI's state machine and what each screen shows.
- `src/bluetooth.rs`, `src/fzf.rs`: device listings, the system's Bluetooth
  listing, and the device picker's rows.
- `src/invariants.rs`: every command and every key press keeps a valid
  configuration valid.

`app/` is the front end: argument parsing, the config file on disk, Bluetooth
scanning, the RFCOMM link, fzf and the terminal.
