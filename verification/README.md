# home_server

A home media server: it scans a music library, resamples files whose sample rate
is too high for a browser to play, keeps a SQLite database of artists, albums and
tracks in step with the files on disk, and serves the tracks over HTTP.

## Layout

- `src/` is the library, written in Verus. Every function carries a contract that
  Verus proves: the domain types and their validation (`domain`), the conversion
  of database rows and the classification of driver failures (`repository`), what
  a scan records of each file (`services::scanner`), what resampling decides and
  reports (`services::resample`), what a synchronisation adds and deletes and in
  which order (`services::sync`), what preparing a machine does (`services::prepare`),
  the command line's choices (`cli`), and the answers of the web pages (`web`).
  Calls into other crates (Unicode normalisation, UUIDs, SHA-256, reading tags with
  `lofty`, unpacking 7z archives, `std::path`) go through small trusted wrappers
  whose contracts say what those crates promise.
- `app/` is the program around it: argument parsing, the configuration file, the
  database queries, walking the file system, running `ffmpeg`, downloads, and the
  web server.
- `tests/` runs the library on concrete values.
