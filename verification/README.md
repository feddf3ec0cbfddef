# audioscope

A visualiser of audio that draws the analytic signal of the sound at the
default input device, coloured by its angular velocity.

- `src/` is the verified library: the checked audio sizes (`settings`), the
  sample window the forward FFT reads (`window`), the frames handed from the
  audio callback to the renderer and the buffers they go round (`frames`),
  the callback's state from block to block (`capture`), the tap layout of the
  analytic filter (`taps`) and the render loop's decisions (`render`).
- `app/` is the program around it: audio capture with PortAudio, the FFTs and
  the other floating-point signal processing, the configuration file, and the
  window with glium.

Run with the configuration file as the only argument:
`audioscope config.toml`. The shaders are loaded from `src/glsl` at run time.
