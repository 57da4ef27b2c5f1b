# Ouroboros terminal client

The state of a terminal client for the Ouroboros runtime, as a verified library.

The client never waits. Keys, ticks, notifications and answers come in as messages; calls go out
through a queue. Everything that decides what a message does lives in `src/`, is executable Rust,
and is proved by Verus to do what its contract says. Sockets, processes, files and the terminal are
in `app/`, which makes the calls, hands back the answers and draws what the library says.

## Layout

* `wire`, `json`, `subprocess`, `embed`, `ownership`: frames and their correlation, documents,
  bounded subprocesses, the release cache, and who stops a runtime.
* `fleet`, `catalogue`, `clock`, `devices`, `devices_view`, `inventory`: the machines of a fleet, the
  words for them, and the view that lists them.
* `cluster`, `machines`, `status`, `access`: one machine or many, the status page, and accessibility.
* `model`, `cells`, `watch`, `sessions`, `stream`: sessions, their transcripts, and how a gap in one
  is repaired.
* `tags`, `panel`, `app`, `answers`, `starts`, `replies`, `restore`, `answering`: what is asked, what
  each answer does, and where the text of a turn goes that did not arrive.
* `actions`, `home`, `submit`, `writable`, `forms`, `explorer`, `images`: what an operator does.
* `press`, `keys`, `typing`, `dialogs`, `motions`, `ledger`, `messages`: where a key goes and what it
  does there, and one message at a time.
* `desktop`, `window`, `facts`: the same state for a window, the title and the status line.

A method that changes the client is described by a relation between the state before and the state
after (`resynced`, `answered`, `keyed`), which says of every field what became of it. Laws that span
several methods are the public proof functions at the end of a module.

## What is believed

Eight functions are not proved: how `std` appends a character, compares and debug-prints text, how a
document becomes a `serde_json::Value` and how that is written, how wide `unicode-width` says a piece
of text is, the SHA-256 of `sha2`, and the operating system's random bytes through `rand`. Each says
in its comment what it claims.

## Around the library

`app/driver` runs the loop: it feeds presses, ticks, notifications and answers in one at a time, sends
what the queue holds, and hands the rest to the screen. `app/model` reads the gateway's documents into
the library's types. The screen itself, the keymap and the editors come in through the trait
`Surface`.
