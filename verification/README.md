# ockam_channel

Secure channels between workers, as a verified library and a thin program around it.

A channel manager keeps channels, each with a key agreement that runs in three messages. A
message to a channel that does not exist opens one; when the agreement is complete, whoever asked
is told, and messages go through. What goes through a channel is encrypted under its keys, each
message with a number of its own, and decrypted at the far end. One way in is open: a payload that
comes in for a channel without keys, or for the zero address, which makes a new channel, is handed
on to the worker as it came.

The library does no input or output, runs no key agreement and has no cipher. `ChannelManager::poll`
and `TestWorker::poll` take an event, return commands for the router and name one action; the
outcome of the action is the next event. `app/` holds the queues, the threads, the sockets, the key
agreements and the vault, and does what it is asked.

* `src/protocol.rs` is the model of the channel protocol; `src/manager.rs` is verified against it.
* `src/laws.rs` states what holds of the protocol and of a worker as a whole: that nothing a worker
  says leaves in the clear, that no number is used twice, and, in the end, that the first message
  of a worker without a channel reaches the worker at the far end.
* `src/runs.rs` states what a manager and a worker make of everything in their queues.
* `src/encoding.rs` and `src/address.rs` hold addresses and their text forms.
* What is taken on trust: `hex::encode`, `hex::decode` and the random number generator of `rand`.
