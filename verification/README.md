# figgie-auto

An automated table for the card game Figgie. Players, built in or connected as an external
process, trade cards of four suits for points while a round lasts; at its end each card of the goal
suit is worth ten points, and the rest of the pot goes to whoever holds the most of them.

The rules are a Verus library; the program around it is ordinary Rust.

- `src/models.rs`: cards, hands, order books, orders and trades.
- `src/match_maker/`: the table. `deal.rs` makes and deals the deck, `matching.rs` carries orders
  out, `scoring.rs` collects antes and pays the pot out, `round.rs` decides what is to be done when
  a round opens, an order arrives or a round closes, `course.rs` which phase follows which and when
  the run ends, and `play.rs` proves what holds of whole rounds.
- `src/logger/`: the event log, one JSON object per line.
- `src/player/`: player names, tables per player, and the messages exchanged with an external bot.
- `src/cli/`: the command line and the seating.
- `src/text.rs`, `src/words.rs`: numbers, searches, white space and words in text.
- `src/rng.rs`: the calls into the `rand` crate, with what is taken for granted of them.
- `app/`: the program: files, the terminal, the bot's process, channels and timers.
- `tests/`: examples on concrete values.

What an order does is the function `Market::after` from a market to the next one. Laws about it, and
about everything else, are public proof functions named `law_..`:

- orders conserve points and cards, and keep books uncrossed and every ask backed by a card;
- a round at a table of distinct players who can all pay the ante can always be scored, and gives
  back what the antes took but for the points that cannot be divided between the leaders;
- the seed decides the deals of a run;
- options on the command line can change places, and of values for one setting the last counts;
- the bot's orders read back, and different messages to it are written differently.

At the end of a round the players with the most goal cards split the rest of the pot evenly, rounded
down.
