# open_sse

Two services that deliver server-sent events to browser clients:

- the **server** holds each client's event stream (`GET /clients/{id}/events`)
  and forwards the events published for that client (`POST /clients/{id}/events`);
- the **broker** checks that the Redis store of client registrations is
  reachable and serves the operational endpoints.

When a client connects, the server writes the client's registration (its id
and the server's address) to the Redis store itself, with the broker's
registration logic (`broker::clients_service`): the address is sent as four
bytes and stored in dotted-decimal notation.

`src/` is the verified library (Verus):

- `server::sse_exchange` — the registry of connected clients that the
  exchange task keeps, with the laws of connecting, delivering and removing
  clients;
- `server::routes`, `broker::clients_service`, `ipv4`, `protocol` — the client
  registration a server sends to the broker, and its address round trip;
- `broker::readiness_checks` — the retry decisions of the broker's readiness
  check;
- `app_ops`, `actix_web_utils`, `broker`, `server` settings — settings, start-up
  information, logging set-up, CORS policy, host address selection;
- `text` — decimal rendering, `u8` parsing and splitting of strings.

`app/` runs the services: configuration files, sockets, the HTTP server, the
exchange task's channels and the Redis connections.
