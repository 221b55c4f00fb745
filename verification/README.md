# auto_trader

The rules of an options trading desk on Indian exchanges, verified with
[Verus](https://github.com/verus-lang/verus): when to enter a position, where its stop
belongs, what to sell and when, how fills at the broker are booked, and how the desk is
brought in line with the broker after a restart.

Amounts, prices and factors are whole millionths (`decimal`), so that no rule depends on how a
floating-point number rounds. The clock is Indian Standard Time throughout (`clock`).

## Layout

| Module | What it holds |
|---|---|
| `text`, `decimal`, `clock` | texts, amounts and times, with the few outside calls they need |
| `domain`, `broker` | what the desk and the broker speak of |
| `sizing`, `decide` | how much to buy or sell, and what to do next with a position |
| `execute`, `settle`, `tick` | carrying out a live decision, booking fills, one round of the desk |
| `paper` | the same without a broker |
| `ingest`, `manual`, `config` | signals, requests of the user, settings |
| `startup`, `sync` | comparing the desk with the broker |
| `gateway`, `orders`, `login`, `auth` | talking to the broker, signing in there and here |
| `desk`, `report`, `scrips` | what is to be done outside, how it is worded, finding contracts |

Functions that have to wait for the broker are split into steps: each takes the positions and
the outcome of the last call, and says what to ask for next. Functions that need the time or a
price have a twin that takes it as an argument; the twin has the exact contract.

At the end of most modules stand its laws: public proof functions that relate several
functions, such as that no sale is placed beside a working stop, or that the broker decides
what is held.

`tests/` runs the library on given values. `app/` is the server around it: routes, the
database, the calls to the broker and the loop of the desk. The charges of a trade, the list of
contracts, one-time codes, the price feed and the chat account are handed to it
(`app/outside.rs`).
