# pacview

The core of a pacman package browser, written in Verus: every function of
the library under `src/` carries a contract that Verus proves.

- `src/` is the library. Its modules hold the package data and status
  flags (`pkg_data`, `flags`, `pkg_object`), searching, filtering and
  sorting (`search`, `sort`), the search bar's response to its events
  (`search_bar`), browsing histories (`history`), the pacman log
  and each package's lines in it (`log`, `pkglog`), backup files, the
  package cache and package groups (`backup`, `cache`, `groups`),
  repository statistics (`stats`), the pacman configuration (`config`),
  and what the sidebar, the details tab, the other tabs and the links of a
  property show (`sidebar`, `details`, `tabs`, `links`). Text helpers with
  their specifications are in `text`.
- A few calls go to outside crates through small functions whose
  contracts are taken on trust (`external_body`): `size`
  formats sizes, `heck` title-cases repository names, `itertools` sorts
  the lists of a package read from pacman's databases; `String::push` and
  `str::to_lowercase` of the standard library are wrapped the same way.
- `tests/` runs the library on concrete values.
- `app/` is a small command-line front end: it reads the pacman log and
  configuration, walks the package cache and paru's PKGBUILD directories,
  and prints what the library makes of them.
