# camera_stream

A multi-client WebRTC camera server: one camera, captured and encoded once, broadcast as H.264 to
every connected browser.

`src/` is the library. It holds what the server decides, written in Verus, with the behaviour of
each function stated as a contract and proved:

| Module | Decides |
|---|---|
| `config`, `types` | settings and ICE servers from the environment; frames |
| `text`, `json` | trimming, splitting and numbers; JSON documents |
| `capture`, `encoder`, `channels` | pipeline descriptions, frame timing, back-pressure, keyframes |
| `slots`, `registry`, `peer` | the peer limit, the registered connections, the life of one peer |
| `signal`, `rtc` | the signaling wire format, what is done about a message, the WebRTC API object |
| `writer`, `routes`, `metrics` | a peer's frame writer, the HTTP decisions, the exported metrics |

Calls into other crates stand behind small trusted functions whose doc comments say what is taken
on trust. `app/` is the server around the library: it owns the sockets, the threads and the
GStreamer pipelines, reports events to the library and performs the actions it is given.

## Signaling (`/ws`)

```json
{"type": "offer", "sdp": "..."}
{"type": "answer", "sdp": "..."}
{"type": "candidate", "candidate": "...", "sdpMid": "...", "sdpMLineIndex": 0}
```

## Configuration

| Variable | Default | Description |
|---|---|---|
| `PORT` | `8080` | HTTP server port |
| `MAX_PEERS` | `50` | Maximum simultaneous peers |
| `ALLOWED_ORIGINS` | localhost | Comma-separated CORS origins; `*` alone allows any |
| `CAMERA_DEVICE` | `0` | Camera device index |
| `CAMERA_WIDTH`, `CAMERA_HEIGHT` | by device | 1280x720 for device 0, 1920x1080 for others |
| `CAMERA_FPS` | `30` | Capture frame rate |
| `ENCODER_BITRATE` | `5000` | x264 bitrate (kbps) |
| `ENCODER_THREADS` | `max(1, cpus/2)` | x264 threads |
| `STUN_SERVERS` | Google STUN | Comma-separated STUN URLs |
| `TURN_SERVERS` | none | Semicolon-separated `url|user|pass` |
