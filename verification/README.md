# flic-async-rs

Turns presses of a Flic button into changes of Philips Hue lights.

- `src/` is the verified library (Verus):
  - `flic/`: the flic daemon protocol — commands and their packets (`commands`),
    button events read from the daemon's byte stream (`events`), little-endian
    fields and button addresses (`wire`), the byte buffer the codec works on
    (`buffer`), and the command that subscribes to a button (`client`).
  - `hue`: reading the bridge's answers, group action addresses, the light listing.
  - `state`: the lights the controller remembers.
  - `lights_controller`: what a button event makes the controller do, and the
    toggle of all lights.
  - `cli`: the program's options and the daemon's address.
- `app/` is the program around it: the TCP connection, the HTTP calls to the
  bridge, printing, and the command line.
- `tests/` runs the library on concrete values.
