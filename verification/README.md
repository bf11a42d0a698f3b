# rmore

A hex-dump pager in the spirit of `bmore`, whose logic is verified with Verus.

- `src/` is the library, verified: the command line (`options`), screen
  ranges (`area`), numbers as `str::parse` reads them and as `{}` / `{:x}`
  write them (`number`), inputs and their descriptions (`input`), byte and
  line readers (`reader`), the pager's state machine and its printout of
  the lines it reads (`pager`), and small decisions of the program (`cli`,
  `config`, `terminal`, `transform`).
  `laws` states properties that span functions.
- `app/` is the terminal program: it reads keys and the command line,
  opens the file, performs the screen operations and the seeks that the
  pager asks for.
- `tests/` runs the library on concrete values.
