# window-warp

Captures a window and warps every frame from a rectangle onto a disk on the GPU. The warped frames
can be encoded with H.264 and sent over the network as an MPEG transport stream.

- `src/` is the library, verified with Verus: the transport stream muxer and what a receiver makes
  of it (`mpegts`), the datagrams and addresses of a stream (`stream`), how an encoder is set up,
  searched for and driven (`encoder`), the colour conversion in front of it (`nv12`), captured
  frames and targets (`capture`), their conversion to RGBA (`preview`), what the renderer holds
  (`renderer`), what the window's messages do (`window`), the options (`cli`) and the turns of the
  render loop (`session`).
- `tests/` runs the library.
- `app/` is the program around it: windows, sockets, the graphics device, the encoder, and the
  measures of the disk, which are floating point numbers. `window-warp preview` shows the captured
  screen as it is.
- `extras/shaders/warp.hlsl` is the pixel shader of the warp.

## The warp

| source           | disk                                  |
| ---------------- | ------------------------------------- |
| x (left → right) | angle, clockwise from `--start-angle` |
| y (top row)      | outer rim                             |
| y (bottom row)   | inner hole (`--inner-radius`)         |

## Keys

| key           | action                         |
| ------------- | ------------------------------ |
| `←` / `→`     | rotate the wrap by 2°          |
| `↑` / `↓`     | grow / shrink the inner hole   |
| `PgUp`/`PgDn` | more / fewer samples per pixel |
| `space`       | freeze the last captured frame |
| `esc`         | quit                           |

## The stream

`--stream udp://HOST:PORT` sends one program with the video on PID `0x100`, in datagrams of seven
packets of 188 bytes. The tables go out at least every 100 ms and before every key frame; every
key frame carries its parameter sets where the encoder tells them. The first packet of a
key frame is flagged as a random access point and carries the clock reference, which runs 200 ms
behind the presentation times.

## Building

The capture needs `scap` 0.0.8 besides the crates that `Cargo.toml` names, and that needs
`windows-capture` 1.4.4; the warp needs Windows 10 1903+.
