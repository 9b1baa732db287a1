# OxideSip

A SIP softphone with five lines per account, G.711 audio over RTP, and a call
history and phone book of its own. What it decides and computes is a library
that Verus proves to do what its contracts say; what touches the network, the
disk, the sound system and the screen is a thin program around it.

## Layout

- `src/media`: codecs, RTP packets, the reorder buffer, telephone events,
  mixing, recording, playback and the sounds of keys and lines.
- `src/signaling`: accounts, SDP offers and answers, registration, and what
  becomes of the calls of an account.
- `src/ui`: the state behind the windows. `App::update` takes in a message and
  returns the effects that are to be performed; `laws.rs` holds what is true of
  it over more than one message.
- `app`: performs the effects, and turns what happens into messages.
- `tests`: the library on concrete values.

## Digits

Digits are sent as telephone events with the audio where both sides agreed on
them and the account allows it, and by SIP INFO otherwise.
