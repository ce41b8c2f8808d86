# tg_unblock

A SOCKS5 proxy that carries Telegram traffic through WebSocket endpoints of
`web.telegram.org` and passes other traffic straight through. The protocol
logic is a verified library; `app/` holds the sockets, the WebSocket client,
the environment and the command line.

Library modules (`src/`):

- `socks`: the SOCKS5 greeting, CONNECT request, destination address, dotted IPv4 reading and replies.
- `auth`: authentication settings, method choice, username/password sub-negotiation.
- `session`: one client's session as a state machine, with its model `spec_step`.
- `dc`: Telegram DC of an address or of an obfuscated2 init packet, WebSocket URL.
- `relay`: what the tunnel does with each event.
- `trusted`, `tracker`, `keyed`: recently trusted addresses and per-address connection slots.
- `text`: decimal rendering and reading, byte copying.
- `laws`: properties of the whole, proved from the contracts.

Settings: `TG_UNBLOCK_AUTH`, `TG_UNBLOCK_USERNAME`, `TG_UNBLOCK_PASSWORD`,
`TG_UNBLOCK_TRUSTED_EXPIRY` (seconds, default 600).
