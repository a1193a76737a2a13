# stream_infra

An RTMP relay for a single streamer: OBS publishes to the local ingest, the
stream is previewed as HLS, and once the operator publishes it, `ffmpeg`
relays it to every enabled target while Discord and a generic webhook are told
that the stream is live. Chat from Twitch (IRC and EventSub) and YouTube waits
in one bounded inbox and is shown one message at a time.

- `src/` is the library, verified with Verus: the chat inbox and its
  deduplication, the Twitch IRC and EventSub parsers and authentication, the
  YouTube polling decisions, configuration validation and store decisions,
  notification payloads, the stream stage (stage, publish, stop), the relay
  and preview `ffmpeg` arguments, HTTP Basic authentication, the health
  response and the systemd unit.
- `tests/` runs the library.
- `app/` is the program around it: command line, SQLite and TOML, the RTMP,
  web and health servers, processes, HTTP clients and the chat connections.
