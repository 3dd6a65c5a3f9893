# monarch_store

The verified core of the MonARCH package store for Arch-based distributions, written in
Verus. `src/` holds the logic with its contracts and proofs: pacman error classification,
repository labels, distribution detection, pacman.conf parsing, search ranking, discovery
and the trending list, package details, news feeds, update runs, installs, AUR builds and
the AUR dependency walk, and the reading of system tools' output. `app/` is a small
command-line front end that reads the host (files, directories, commands) and hands plain
values to the library. `tests/` exercises the library on concrete inputs.
