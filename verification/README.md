# saddle-stitcher

Turns an A4 PDF into A3 spreads laid out for double-sided saddle-stitch
booklet printing, served by a small local web application.

- `src/` is the verified library (Verus): the booklet page order and its
  laws (`pdf::saddle_stitch`), the reading and writing of the PDF document
  (`pdf::document`), the assembly of the output document and the order of
  its checks (`pdf::booklet`), the upload form and the download headers
  (`api::pdf`), the error envelope (`error`), configuration defaults and
  directories (`config`), the command line (`cli`), autostart quoting
  (`autostart`), the tray decisions (`tray`) and the static-file headers
  (`static_files`).
- `app/` is the program around it: the axum server and its handlers, the
  SQLite connection, logging, reading `config.toml`, the page geometry of
  the spread pages (the floating-point numbers handed to `pdf::booklet`), and the optional task-tray mode
  (`tray` feature).
- `tests/` runs the library on concrete values.
