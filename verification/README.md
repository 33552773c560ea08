# megaparse

Turns a `mega-ls -l -r --time-format=ISO6081_WITH_TIME` listing and an
`rclone lsf --files-only -R --csv --format ps` listing into CSV files that can
be sorted and compared side by side (the program opens `meld` on them).

- `src/` is the verified library: the line-by-line conversion of both
  listings (`scan`, `rclone`), the check made before a conversion starts
  (`launch`), the progress messages (`progress`), the file-chooser steps
  (`dialog`) and the state of the window and its events (`gui`), on top of
  text primitives (`text`) and the time-zone arithmetic of `chrono`
  (`clock`).
- `app/` is the window itself (iced), the file chooser (native-dialog), the
  reading and writing of files, and the calls of `sort` and `meld`.
