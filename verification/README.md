# UTTT matchmaking

A server that brings together two players of ultimate tic-tac-toe over TCP and
passes their moves back and forth.

A client that connects is paired with the client that has waited longest, or else
waits. Both players of a new pair get the packet `3, n`, where `n` is 1 for one of
them and 2 for the other, so that exactly one begins. From then on each message of
two bytes goes to the other player. When a player leaves, the other one waits again,
behind everybody else.

`src/` is a library of the server's decisions, verified with Verus:

| module | what it decides |
| --- | --- |
| `config` | which configuration file is read |
| `startup` | the order of the startup, and which failures stop it |
| `token` | tokens, readiness, classes of errors |
| `game` | who starts, and what the players are told |
| `lobby` | who is connected, who plays with whom, who waits |
| `handler` | what is done about a readiness event of one client |
| `server` | how all of it reacts to events on the sockets |

`handler_laws` and `lobby_laws` state and prove what holds of whole events and of
whole histories.

`app/` is the program: it reads the configuration, sets up the sockets, polls them,
and performs what the library asks for.

The configuration file is JSON, by default `config.json`:

```json
{
  "listen_addr": "0.0.0.0",
  "listen_port": 3000,
  "listen_backlog": 128,
  "keepalive_interval": 10,
  "keepalive_retries": 3
}
```
