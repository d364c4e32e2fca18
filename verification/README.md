# book_generator

The core of an AI-assisted book generator, verified with Verus.

A book is generated in phases: its context (ideas, genre, style, characters,
synopsis), an outline, then chapter by chapter the scenes and their text. Each
phase hands a prompt to a language model and reads its answer back. The library
in `src/` holds the parsing, the texts handed to the model and written out, and
the rules that decide which chapters and scenes are generated, each function with
a contract that Verus proves:

- `outline`, `book`, `loader`: reading outlines, genres, characters and chapters
  from model answers, from the metadata file and from the logs of a run, with the
  laws that what is written is read back (`law_outline_round_trip`,
  `law_characters_round_trip`, `law_genre_round_trip`).
- `metadata`, `tokens`, `files`: the sections of the metadata file
  (`law_read_after_update`), token accounting, and file and directory names.
- `generation`, `summary`, `prompts`, `llm`: which chapters and scenes are
  generated, the texts handed to the model, the retry rule of the model client.
- `render`, `chapter_body`, `titles`, `cover`, `statistics`: the rendered book,
  its table of contents (`law_summary_read_back`), the export document and the
  plain cover.
- `service`, `cli`, `config`: the rules of the HTTP service, the command line and
  the settings.

`app/` is the program around the library: the HTTP service, the command line,
the calls to the model services, the file I/O, and the order in which the phases
of a run, or of a resumed run, are carried out. `tests/` runs the library on
concrete inputs.
