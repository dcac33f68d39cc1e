# tcast

Live terminal sharing: a streamer shares their terminal, spectators browse the
live streams, or join a private one by its code, and watch read-only.

The library under `src/` holds every decision of the three parties and is
verified with Verus. The program under `app/` does the I/O around it: sockets,
the PTY, the terminal, the sound devices and files.

| module     | what it is                                                          |
|------------|---------------------------------------------------------------------|
| `protocol` | the messages between hosts, the relay and watchers                  |
| `relay`    | the relay: registry, fan-out, late joins, chat, and what it keeps   |
| `host`     | the streaming side: hotkeys, handshake, session                     |
| `watch`    | the viewer: keys, messages, what it shows, its connection, listing  |
| `audio`    | one-way voice: wire format, framing, jitter buffer                  |
| `config`   | saved settings and what the commands make of them                   |
| `owned`    | markers of the streams that this machine hosts                      |
| `link`     | what arrives on a client's connection                               |
| `emulator` | the terminal emulator that mirrors a streamed screen                |
| `dict`, `text`, `seqs` | building blocks                                         |

Functions named `law_..` state what holds across calls.

The program is called `tcast` or `tcast-relay`, and goes by that name. On Linux
the client links ALSA for voice.
