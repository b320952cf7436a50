# file_share

A small program that shares files over HTTP on the local network: it asks
which of the machine's addresses to announce, prints the address and a QR
code for it, and then either offers the files of `./uploads` for download or
takes uploads into that directory.

- `src/` is the verified library (Verus): reading the mode name, deciding on
  the answer to the address prompt, the texts it prints, the pages it serves,
  the server descriptions, and the path under which an upload is stored.
- `app/` is the program around it: arguments, terminal and network I/O, and
  the web server.
- `tests/` runs the library on concrete values.
