# x_tweets_backup

Backs up a user's tweets from X (Twitter): their text as a Markdown document
and their media files, remembering which tweets are done so that a later run
picks up where the last one stopped.

The logic is a Verus library under `src/`, each function with a contract that
Verus proves:

- `json` — the API's JSON documents as plain values;
- `text` — the string operations the rest is written with;
- `config` — the settings, read from the token file and the environment;
- `setup` — reading the account's tokens out of a `curl` command;
- `x_api` — the API's request URLs and headers, reading its answers, and the
  paging of a timeline read;
- `tweet_parser` — the parts of a tweet: media URLs, time, author;
- `downloader` — which files to download under which names, and the record
  of finished tweets;
- `markdown_generator` — the Markdown document;
- `backup` — the decisions of a backup run and its tally;
- `updater` — the release check;
- `datetime` — calendar time through `chrono`.

Besides the contracts, `src/` proves the properties that tie the parts
together: the Markdown lists every tweet once, newest first and stable; an id
saved to the record is read back; the pager never hands out a tweet twice and
asks for at most the configured number of pages; the token file that setup
writes is the one the settings read; saved file names hold no path separator;
escaped text holds no markup characters.

`app/` is the command-line program around the library: arguments, files, HTTP
and the loops that carry out what the library decides. `tests/` holds the
tests.
