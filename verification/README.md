# iroh-mainline-address-lookup-blinded

Address lookup for iroh over the BitTorrent mainline DHT, under *blinded* keys.

An endpoint publishes how it can be reached as a signed item under a key that is
derived from its public key. Whoever knows the endpoint id derives the same key,
finds the item and opens it; everybody else sees an unlinkable pseudonym that
holds an opaque blob of one size.

## Layout

- `src/`: the library, verified with Verus. What to publish (`publisher`), under
  which key to look and what an answer means (`lookup`, `resolve`), and what they
  are made of: key blinding (`blinding`), sealing (`encryption`), the signed byte
  string (`signable`) and the record format (`wire`). Cryptography, `postcard` and
  URL parsing are called through small functions whose doc comments start with
  `Trusted:` and say what is relied on without proof.
- `app/`: the iroh address lookup around it: the DHT, the publishing task, iroh's
  traits and types.
- `tests/`: tests of the library, with the real crates linked.

## What is proved

- The owner of a secret key and a resolver that knows only the endpoint id derive
  the same blinded key (`BlindedKeypair::from_master`), and what the owner signs
  verifies under it (`BlindedKeypair::sign`). The blinded key is a key again,
  not of small order, and not the endpoint id unless the blinding factor is one.
- A sealed record opens to the padded plaintext, whatever the nonce (`seal`), and
  nothing but a sealed record opens, under one tag only (`open`).
- A record that is published lies where a resolver looks, and resolves to the
  addresses that a record carries and to the user data
  (`published_data_resolves`, `published_record_is_blinded`).
- Records up to the padding have one size (`published_size_is_uniform`).
- What is signed for two different items differs (`signable_is_injective`).
