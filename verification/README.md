# valence

Parts of a Minecraft server and its tools, with contracts that Verus proves.

- `src/packet.rs`: sides and states of packets, compression thresholds, and how a
  packet begins with its id.
- `src/chunk/`: chunks of a world. `model.rs` says what a chunk is and what each
  change makes of it; `loaded.rs` stores one, `loaded/show.rs` shows it to a client
  and `loaded/tell.rs` tells of its changes; `palette.rs`, `light.rs` and
  `heightmap.rs` hold its parts; `init.rs`, `message.rs` and `send.rs` say what is
  sent.
- `src/capture/`: files that hold the packets of a connection.
- `src/inspector/`: the proxy that shows and captures packets: what it does with
  each packet, the capture of a connection, and the tab that starts it.
- `src/text.rs`: numbers as text.

`laws.rs` in `chunk/` and `capture/`, `told.rs` and `shown.rs` in `chunk/`, and the
end of `inspector/proxy.rs` state what holds across several functions. Among these
are that cached packets show the chunk as it is, that they are those that encoding
it anew would give unless a section was stored anew without dropping them (by
shrinking, or by filling it with the one block that it holds), that a client which
applies the messages on changes has the blocks of the chunk, and that a capture is
read back as it was written.

What the library does not prove stands in functions marked
`#[verifier::external_body]`, the calls of `byteorder` in `src/capture/number.rs`
and of `BTreeMap::get_mut` in `src/chunk/loaded.rs`, and in what
`src/inspector/proxy.rs` says of `PathBuf::clone`.

`app/` does the input and output around the library.
