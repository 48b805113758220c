# s10-ringctrl

Input remapper for the S10 Bluetooth ring remote (a JieLi chip that presents itself as an
Apple Magic Trackpad). Swipes, taps and double taps on the ring, and the power key, are mapped
to shell commands, typed text, keys, key combinations or mouse clicks, per profile.

- `src/` is the library, verified with Verus: gesture recognition (`gesture`), configuration
  (`config`), planning of actions (`action`), the decisions of the event loop (`remap`) and of
  reading a device (`device`),
  over a string map (`strmap`) and string operations (`text`) specified on characters.
- `app/` is the program around it: command line, TOML files, the evdev devices, running
  the planned programs, and key repeats in the background.
- `tests/` runs the library on concrete inputs.
