# peterlits_com_server

The request logic of the peterlits.com home-page server, verified with Verus.

- `src/` is the verified library:
  - `like`: the like and dislike counters and the bodies that report them;
  - `route`: which handler answers a request, from its method and path;
  - `comments`: the page a query asks for, the number of pages, the body
    that sends a page, and the three-second spacing of comments from one
    address;
  - `clock`: instants as `chrono` represents them and the time between two;
  - `text`: exact text comparison, decimal text and `i64` parsing.
- `app/` is the server around it: the hyper service, the SQLite comment
  store and the JSON file that keeps the counters.
- `tests/` exercises the library.
