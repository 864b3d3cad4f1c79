# humphrey

An HTTP/1.1 web server whose core is verified with Verus.

- `src/` is the verified library: status codes, headers and the ordered header map,
  requests and responses (reading them line by line and writing them out), cookies,
  CORS, dates, MIME types, percent-encoding, wildcard routing and path lookup, the
  decisions of the connection loop, monitoring events, FastCGI records, and the PHP and
  hot-reload plugins' handling of requests and pages. Each function states what it
  returns in its `ensures`; the laws (round trips of encodings, of header names, of
  written lines, read-after-write on the header map, and others) are public proof
  functions.
- `app/` is the server around it: sockets and TLS, the thread pool, the threaded and the
  tokio apps, file handlers, proxying, and the plugins' connections and file watcher.
- `tests/` exercises the library on concrete values.
