# Twitch adapter

A module for the Cockatiel engine that connects it to a Twitch chat. It relays
chat messages to the engine, says in the chat what the engine wants said, and
passes the moderator commands `!ban` and `!timeout` on as queries.

`src/` is the verified library: what the adapter decides. Each function carries
a contract that Verus proves. The calls into `serde_json`, `uuid` and parts of
the standard library are the exception: they stand in small functions of their
own, whose contracts are taken on trust and say so.

| module       | what it decides                                                  |
|--------------|------------------------------------------------------------------|
| `text`       | searching, cutting, splitting and joining of text                |
| `json`       | JSON values, which `serde_json` holds, reads and writes          |
| `chat`       | what lines from Twitch mean, and the lines that go out           |
| `moderation` | the moderator commands in a chat message                         |
| `engine`     | the messages to the engine, and what to do about those from it   |
| `prompt`     | questions to the operator, and how their answers are awaited     |
| `oauth`      | the authorization in the browser                                 |
| `settings`   | what is kept between runs: `config.json` and the secrets         |
| `setup`      | the way to the credentials, step by step                         |
| `session`    | what follows from events in the chat and from the end of a stay  |

The functions whose names begin with `law_` state what holds of several
functions together.

`app/` is the program around it: sockets, files, the environment, the browser
and the clock. `tests/` runs the library on concrete values.

## Settings

- `TWITCH_CHANNEL` and `TWITCH_USERNAME`, or `channel` and `username` under
  `module_specific` in `config.json`
- `TWITCH_OAUTH_TOKEN` and `TWITCH_CLIENT_ID`, which are kept in `.env`
- `oauth_redirect_port` in `config.json`, 3000 by default
