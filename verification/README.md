# lightindark_v2

The rules of the LightInDark competitive game (seasons, staking, runs, a live
top-three leaderboard and the end-of-season reward split), written in Verus
and verified.

- `src/` is the verified library. Each instruction of the game is a function
  from the accounts' plain state (addresses as 32 bytes, timestamps, token
  balances) to the new state and the list of token and rollup actions to
  perform, or to the error that refuses it.
  - `state.rs`: seasons, player entries, runs, the reward percentages.
  - `instructions.rs`: the instructions and their contracts.
  - `leaderboard.rs`: ranking, the top-three update and its proofs.
  - `rewards.rs`: the prize-pool split and the payouts.
  - `laws.rs`: properties that span instructions (the leaderboard keeps the
    season's best players, rewards go out once, payouts stay within the pool,
    a committed run is final, personal bests only improve, an ended season
    stays ended).
- `tests/` runs the library on concrete values.
- `app/` is the Anchor program around the library: account validation, the
  clock, token transfers and burns through the token program, and the
  delegation of runs to the ephemeral rollup.
