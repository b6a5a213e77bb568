# ekursy_api

A web server that signs students into the PUT "ekursy" Moodle and serves
what its pages say as JSON (and as a small HTML front end).

- `src/` is the verified library. HTML pages are parsed by `scraper` behind
  trusted wrappers (`dom.rs`) into plain trees; everything read out of those
  trees (courses, resources, grades, forums, profile fields, login forms),
  every error answer and every address built is computed by verified code
  against `ensures` clauses over spec functions.
- `app/` is the server itself: axum routes, the requests to Moodle made with
  reqwest, serde copies of the library's records, and logging.
- `tests/` runs the library on concrete pages.
