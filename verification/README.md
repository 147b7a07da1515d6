# punch

Peer-to-peer hole punching, with the logic verified by Verus.

`src/` is the library. It holds no socket and starts no task: where work outside is needed, a
function says what comes next, and another one takes what came of it.

| Module       | Holds                                                                          |
|--------------|--------------------------------------------------------------------------------|
| `protocol`   | the packets on the wire: header, pings and pongs                               |
| `codec`      | packets on a byte stream: cutting them out, writing them                       |
| `network`    | addresses, and what a node learns of the network that it sits behind           |
| `punch`      | a node's own state, and the steps of a hole punching attempt                   |
| `tunnel`     | what data that came in leads to, and the way out to a peer                     |
| `kcp_stream` | streams over KCP: which packets belong to which stream, and the engine's steps |
| `client`     | a client's connection to a peer, relayed or direct                             |
| `maintain`   | what a node does from time to time                                             |
| `buffer`     | byte buffers                                                                   |
| `clock`      | timestamps                                                                     |
| `error`      | the errors                                                                     |

`tests/` runs the library. `app/` puts sockets, channels and tasks around it.

What the library takes on trust are contracts of functions of other crates and of the standard
library. Each stands above a function marked `external_body`, with the name of the function that it
calls.
