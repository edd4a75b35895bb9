# du_analog_inputs

Sends several analog axes of game devices into Dual Universe by encoding them
into relative mouse movements, and turns mapped buttons and HATs into key
presses.

- `src/` is the verified library:
  - `device_codes`: numbers of controller axes, buttons and HAT positions;
  - `text`: decimal numbers and truth values as the configuration files write them;
  - `mapping`: axis names, key lists and the per-device mappings, with their defaults;
  - `keys`: the key presses gathered between two sends to the keyboard;
  - `axis_state`: the input axes and the packing of quantized axes into mouse movements;
  - `settings`: checking the basic configuration;
  - `devices`: the connected devices and which device events are passed on;
  - `send_loop`: the decisions of the input loop;
  - `console`: log lines and the exit answer.
- `app/` is the program around it: SDL2 devices, the keyboard and mouse, the
  configuration and mapping files, threads, and the floating point
  quantization of axis values.
- `tests/` runs the library on concrete values.
