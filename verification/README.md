# mekabridge

A bridge between the meka agent and chat platforms: Discord and Telegram.

## Layout

- `src/` is the library. It decides who is heard and why, what a message means, how a reply is
  rendered and split into messages, what a configuration allows, and what the operator's commands
  print. Its contracts are proved by Verus.
- `tests/` runs the library.
- `app/` is the program around it: the command line, the configuration file, the two connectors and
  the commands. It performs what the library decides and decides nothing itself.

## What is proved

Each contract says what a function returns for every input, over mathematical models: sequences of
characters for text, maps for the caches, integers for moments. Beside the contracts stand laws that
relate several functions, as public proof functions. Among them:

- A channel that nobody was let into hears nobody, and naming a person lets them reach the bot in a
  direct message alone.
- Opening a channel changes nobody's reason for being admitted.
- An edit is never taken for a duplicate of the message that it revises.
- A conversation survives being written down and read back.
- A reply loses nothing visible when it is split, and every part stays within the platform's limit. A
  link that alone would take up a Discord message is written out instead.
- A paragraph that is too long is cut into parts of a size, not into a wall of text and a scrap.
- No text inside a Discord code block or code span closes it.
- Text that is escaped is shown as it was written, and every Telegram part is well-formed markup.
- A configuration that was accepted names distinct channels, opens none by accident, and puts the
  owner on a configured channel.
- A path of the platform survives being kept as text, Unicode or not.
- A secret that is shown to somebody does not show its value.

## What is trusted

Calls into other crates stand behind small functions marked `external_body`, each with a doc comment
that names the call and says what is believed of it: CommonMark parsing (`pulldown-cmark`), URLs
(`url`), spans of time (`humantime`), dates (`chrono`), permission arithmetic and timestamps
(`twilight-util`, `twilight-model`), message entities (`teloxide`), and a few functions of the
standard library. Where a result takes pages to state, it has a name, a spec function without a
body, and contracts speak of that name.

## Building

`takecell` is held to the version that `teloxide` was written against: nothing here calls it, and the
later one does not compile with `teloxide`.
