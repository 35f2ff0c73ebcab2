# weii_joins

Follows the messages of a chat guild, and joins the private game servers that they link to when they
announce one of six biomes.

`src/` is the library, verified with Verus:

- `text` searches and reads text;
- `pattern` holds the patterns that messages and device lists are searched for, with their grammars;
- `link` reads server codes from links and writes the addresses for a code;
- `biome` holds what is known of each biome, and tells which messages are about it;
- `json` stands between the library and `serde_json`;
- `settings` reads the configuration;
- `gateway` writes what is sent to the gateway and reads what comes from it;
- `webhook` writes the notification of a join;
- `watch` decides, from the game's log, whether to leave a server;
- `sniper` decides which messages to act on, and how;
- `session` is the course of a session with the gateway.

`app/` is the program: files, processes, sockets and the clock.

Public proof functions whose names start with `law_` state what holds of the library as a whole.
