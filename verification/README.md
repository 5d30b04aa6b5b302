# Photon adapter

Connects a bot to iMessage through Photon. A sidecar process speaks to Photon; the adapter speaks
to the sidecar over its standard streams, one JSON object per line.

`src/` is the library, verified with Verus:

- `adapter`: the adapter's state, and what each request of the bot makes it send;
- `inbound`: what the bot is told of a message that the sidecar reports;
- `outbound`: which command answers a message, with which payload;
- `command`, `json`, `attachment_data`: the text of a command on the wire;
- `supervisor`: when the sidecar is started, how long to wait in between, and how the callers of
  commands are answered;
- `launch`: how the sidecar process is started;
- `allow_list`, `string_map`, `text`, `clock`, `message`, `sidecar`, `error`, `metadata_keys`: the
  types and helpers that these share;
- `laws`, `supervisor_laws`, `json_reading`: what holds of the library as a whole, as proof
  functions.

`app/` runs the library: it starts the process, reads and writes its streams, and passes messages
and commands through channels.
