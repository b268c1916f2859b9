# archive_me_plz

A mass file archiver. The library in `src/` holds, with their proofs, the rules
of the tool: how the command line is read, which files of a folder are old
enough and of a handled kind to be archived, when a folder qualifies, and when
a move counts as a success. `app/` is the program around it: it reads the
folder, the dates of last change and the command line, copies and removes
files, and prints.

- `src/parser.rs`: the command line.
- `src/file_handling/`: selecting the files (`PreProcessor`, `Processor`) and
  judging the move (`Mover`).
- `src/filetypes.rs`: the kinds of file, by extension.
- `src/date.rs`: calendar dates, read and computed through chrono.
- `src/text.rs`, `src/paths.rs`: text and path helpers over std.
