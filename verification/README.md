# bevy_agent_feedback

Local control of a Bevy application by an agent. The application listens on a socket for requests,
one JSON object to a line: input, waits, steps of virtual time, captures of the window and
questions about the world. A client sends them, and `bevy-feedback` runs an application together
with a driver that does.

The library is everything that can be decided without touching the world, and it is verified with
Verus: how requests are read and bounded, how held inputs, waits, advances and captures go from
one frame to the next, how targets are found and conditions judged, what the answers say, what a
client sends and believes, how a run goes through its phases, and what is told of a failure.

- `src/` holds the library. Each function states what it does in its `ensures`; the proof functions
  whose names begin with `law_` state what holds of several functions together.
- `tests/` holds ordinary tests of the library.
- `app/` holds the program and the Bevy plugins: sockets, files, processes, threads, the world, and
  what is computed in floating point. It hands the library plain values and carries out what the
  library decides.

Coordinates, sizes and other floating-point numbers pass through the library as their bits, and
lengths of time as whole nanoseconds. JSON is read and written by `serde_json`, and images are
decoded by `image`; the few facts that the library takes from them on trust stand above the
functions that call them.
