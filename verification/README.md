# Xodus

Xodus brings games from Microsoft's store to other systems. This crate is its library, written in
[Verus](https://github.com/verus-lang/verus): functions state in their contracts what they return or
change, and Verus proves it. Of what rests on chance or on the time, the contracts state what holds
of every outcome.

- `src/` is the library. It decides and computes; it opens no file and no socket.
- `app/` is the service and the command line around it: sockets, files, processes and terminals.
  What talks to Microsoft's services and to package images comes in through the traits in
  `app/services.rs`.
- `tests/` runs the library on concrete values.

What holds between several functions stands in public proof functions, such as those in
`src/tokens/laws.rs`: a token that was saved is read back, the license of the device outlives its
user, a token out of the cache outlasts its safety margin. Those that speak of what is read back
hold for every pair of encoder and decoder that undo each other.

What the library takes on trust are the outside crates behind the functions marked
`external_body`, each with a comment that says what it claims: HMAC-SHA256, AES-256-CBC, base64,
canonical XML and its signatures, UUIDs, calendar arithmetic and the XML reader; the random source
and the clocks of the machine; and two functions of the standard library on text.
