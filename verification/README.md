# drill

Drill is an HTTP tunnel that needs a single port and runs behind a reverse proxy
such as nginx. A client connects to the control websocket of a server and gets a
subdomain; the server passes every connection for that subdomain on to the
client, which connects it to a local port. All connections of a client share its
websocket.

## Layout

- `src/` is the library: the packets, the sessions, the routing of requests,
  authentication, the client, and the server for game bots. It is written in
  Verus and verified, up to the calls into other crates. It does no input or output: it is
  told what happened and says what is to be done.
- `app/` are the programs around it: sockets, timers, HTTP requests, the chat of
  the game, and the command line.
- `tests/` run the library.

What holds of the library as a whole is stated by the proof functions whose names
start with `law_`: for example that packets read back as they were written, that
what enters the tunnel on one side leaves it unchanged on the other, that only an
accepted token lets a client in, and that the public URL that a client is told
leads to that client.

The proofs rest on what is stated of a few functions of other crates: `dashmap`
(`src/shared.rs`), `httparse` (`src/request.rs`), `http` (`src/uri.rs`), `uuid`
(`src/util.rs`), and some of the standard library (`src/text.rs`).

## Running the server

`$ drill server --auth anonymous --subdomain-strategy random --websocket-host mydomain.com --domain mydomain.com --description "Welcome to my Drill instance!" -p 7777`

runs a public instance which hands out random subdomains, with the control
websocket at `mydomain.com`.

Authentication backends (`--auth`):

- `ao`: clients present a token that they are told in Anarchy Online
- `private`: clients present one of the tokens in the file given by `--token-file`
- `anonymous`: any token will do
- `dynamic`: the URL given by `--auth-backend` is asked, with the query parameters
  `token` and `desired_subdomain`, percent-encoded and added to the query that the
  URL may have; a 2xx answer grants the subdomain in its body,
  any other rejects the client

Subdomain strategies (`--subdomain-strategy`): `ao-character`, `client-choice` and
`random`. `dynamic` authentication ignores the strategy.

## Running the client

`$ drill client -p 8080 -s subdomain -d mydomain.com`

connects to the instance at `mydomain.com`, attempts to claim
`subdomain.mydomain.com` if possible, and tunnels traffic to the local port 8080.

## Running the server for game bots

`$ USERNAME=... PASSWORD=... CHARACTER=... drill standalone`

`PORT` and `DOMAIN` can be set too.
