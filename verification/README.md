# Halloween game

A cooperative monster hunt played over WebSockets. Players join, start a game, take turns
attacking five monsters, form alliances and give each other points. Whoever has the most points
when the last monster is gone wins.

- `src/` is the verified library. It holds the rules of the game as functions from a state and an
  event to the next state and a list of actions, the WebSocket frames and handshake, and the JSON
  messages.
- `tests/` runs the library on concrete games, frames and messages.
- `app/` is the server around the library: sockets, timers, chance and the records in MongoDB.

Where to start reading in `src/`:

| module | contents |
| --- | --- |
| `modelo` | players, monsters, the state and what holds of every state |
| `partida`, `combate`, `intercambio`, `turnos` | the rules |
| `servidor` | requests, connections and grace periods |
| `leyes`, `presencia`, `cuentas` | laws across the rules |
| `trama`, `saludo` | frames and handshake |
| `json`, `peticion`, `mensaje` | messages in both directions |
| `tabla`, `texto`, `identidad`, `accion` | tables, text, identifiers, actions |
