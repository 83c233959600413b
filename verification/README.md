# shuidui_backend

The backend of a monitoring and simulation system for a water-powered
trip hammer (水碓): sensor readings arrive over MQTT, a cam-follower
dynamics model is evaluated for them, and an HTTP/websocket API serves
devices, readings, dynamics results, alerts, cam profiles and simulations.

- `src/` is the verified library (Verus): the HTTP route table
  (`routing`), the answer envelope and listing defaults (`responses`),
  start-up configuration with port parsing (`config`), alert forwarding to
  websocket clients (`stream`), grain classification (`grain`) and the time
  stamp of incoming readings (`timestamp`), with `text` holding character
  helpers. Every public function carries a contract, and the laws of the
  route table and of port parsing are stated and proved as proof functions.
- `app/` is the program around it: environment access, logging, the warp
  server, the websocket I/O, the serialisable records and the
  floating-point dynamics model.
- `tests/` runs the library on concrete values.
