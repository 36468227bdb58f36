# livewall

A Wayland wallpaper daemon (`livewall`) and its control client
(`livewallctl`) for wlroots compositors: video and image wallpapers per
output, Unix-socket IPC, power-aware pausing.

The decisions of both programs live in a library verified with Verus:

| Module | What it decides |
|--------|-----------------|
| `types`, `ctl` | names of scale modes, decode preferences and wallpaper kinds; command-line values; folder cycling and random picks; the systemd unit |
| `config`, `keyed` | configuration defaults, per-output entries, file and socket locations |
| `ipc` | length-prefixed message frames |
| `daemon` | the request state machine: pause, power policy, set / clear / save, status |
| `surfaces`, `slot`, `present` | which output surface shows which slot, and when a frame is new |
| `frame`, `image_player`, `video` | pixel conversion, animation playback, decode requests and outcomes |
| `gpu`, `power`, `metrics` | render node choice, battery and fullscreen probes, memory figures |
| `text`, `decimal` | small string and number helpers with their specifications |

`app/` holds what the library leaves to the outside: the Wayland client,
threads, the FFmpeg bridge, sockets, files, command-line parsing and
serialization.
