# fin

A music and video player for Jellyfin and Subsonic servers that lives in the
terminal. It plays on this machine, through mpv, on a Chromecast or on a UPnP
renderer, and it can itself be a UPnP renderer that others cast to.

The library under `src/` holds what the player decides and computes, and every
function of it is verified with Verus: its contract says what it returns or
changes, and the proof shows that it does so on every input that it takes,
without overflow or panic. The program under `app/` does the rest: sockets,
files, threads, the terminal and the sound device.

## The library

| Module | What it holds |
| --- | --- |
| `queue`, `persist` | the play queue with shuffle and repeat, and how it is kept |
| `renderer` | what every player can be asked, and what it tells |
| `symphonia`, `rockbox`, `mpv`, `local` | the players on this machine |
| `remote`, `cast`, `upnp`, `devices` | the players elsewhere, and how they are found |
| `stream` | a download that is read while it arrives |
| `jellyfin`, `subsonic`, `media`, `models`, `json` | the servers: requests, answers and items |
| `config`, `cli` | the settings and the command line |
| `mediarenderer` | this machine as a UPnP renderer: SSDP, HTTP, SOAP and GENA |
| `mpris` | this machine as a player of the desktop |
| `tui` | the terminal program: keys, screens, texts and colours |
| `text`, `escape`, `num`, `tenths`, `columns`, `sort`, `ids` | texts, numbers and identifiers |

Promises that span several functions are public proof functions whose names
start with `lemma_`: that going back undoes an advance, that a shuffle keeps
every item, that what is read from a download is what arrived, that XML
entities decode to what was encoded, that a service answers exactly the actions
that it declares, and so on.

Floating point stays out of the library. Volumes are thousandths, times are
milliseconds or microseconds, and gains are thousandths of a decibel.

## What is trusted

A few calls go to other crates or to the standard library; each stands behind
one function or declaration whose contract is taken as given and whose doc
comment says what it claims: `percent-encoding`, `url`, `md5`, `uuid`, `rand`,
`unicode-width`, `serde_json`, and, of the standard library, pushing to a
`String`, upper case and lossy UTF-8.

## The program

`app/main.rs` is the entry point. Each player has a file of its own that does
what the library tells it to and reports what came of it. `output.rs` drives
the sound device with `cpal`.
