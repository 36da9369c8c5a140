# srw

Seamless remote windows: the windows of applications that run on a Mac appear
as native windows on another machine, one local window per remote one.

The host captures each window, encodes it as H.264 and sends it over WebRTC,
with a control channel for what happens to the windows. On the client a
coordinator starts one helper process per shared application, so that each has
its own Dock tile, and feeds it over a socketpair. Input goes the other way.

## Layout

- `src/` is the logic, verified with Verus: every decision of the host, the
  coordinator and the helpers is a function of plain values whose contract
  says what it decides. State machines take events and return the actions to
  perform. What the video codec makes of a frame or a packet is its own: there
  the contracts say what it is handed and what becomes of what it returns.
- `src/*_laws.rs` states what holds across steps: what every event keeps, what
  one call undoes, what two ends agree on.
- `app/` is the program around it: sockets, WebRTC, windows, the JSON forms of
  the messages, floating-point arithmetic and what only macOS can do.
- `tests/` runs the library.

## Modules

| Module | What it holds |
| --- | --- |
| `protocol`, `model`, `scalar`, `classify` | messages, windows, numbers by their encoding |
| `tracker`, `session`, `capture`, `input`, `share` | the host: windows to events to tracks and messages, and input back |
| `pixels`, `codec`, `h264`, `pipeline`, `image`, `blit`, `host_blit` | frames and still images on their way |
| `peer`, `signalling`, `net`, `router`, `ipc`, `helper` | connection, routing and framing |
| `coordinator`, `bundle` | helper processes and their bundles |
| `mirrors`, `mirror_app`, `app`, `mapping`, `paint` | the mirror windows |
| `names`, `ids`, `text`, `bytes`, `b64` | what the others are built on |

## Trusted code

Calls into `base64`, `png`, `openh264`, `serde_json` and `webrtc`, and two
functions of the standard library, stand behind small wrappers in `b64`,
`image`, `h264`, `signalling`, `bytes` and `text`. Each says in its doc comment
what is claimed of the outside function.
