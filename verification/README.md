# waggle_mvb

The logic of a Solana NFT program, verified with Verus.

A master NFT ("MVB") is printed in editions, paid for either with an
airdrop allowance proven by a Merkle proof or with the value of staked LP
tokens. An edition can be locked to earn time, and each full cycle of
locked time is harvested for honey drops of four kinds, drawn at random from
the program's remaining supply.

Layout:

- `src/` is the verified library. `accounts` holds the account records and
  error codes, `instructions` what each instruction decides and writes,
  `honey` the draw of honey drops, `merkle_proof` proof checking,
  `addresses` the derived metadata, master edition and edition marker
  addresses, and `laws` properties that relate instructions to one another.
  `external` holds the trusted interfaces to `solana_program`,
  `mpl_token_metadata` and std's hasher.
- `app/` is the Anchor program around the library: account validation,
  loading and storing accounts, and the calls into the token and metadata
  programs.
- `tests/` runs the library on concrete values.
