# nonogram_fetcher

Backend of a reMarkable AppLoad app that downloads a puzzle from
nonograms.org and files it as a PDF document in the tablet's library.

- `src/` is the library, verified with Verus:
  - `text.rs`, `numbers.rs`: the string operations the rest relies on
    (trim, split, replace, contains, decimal and hexadecimal numerals),
    stated over `Seq<char>` and proved.
  - `protocol.rs`: the message framing spoken with the AppLoad frontend.
  - `nonogram.rs`, `scrape.rs`, `web.rs`: the search query, the reading of
    result and print pages, and the HTTP requests.
  - `worker.rs`: the download worker as a state machine.
  - `document.rs`: document names and the library's sidecar files.
- `app/` is the program around it: the socket, the threads, the PDF drawing
  and the file writes.
- `tests/` runs the library on concrete values.
