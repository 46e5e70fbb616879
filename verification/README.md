# motorsport_calendar_website

The website of a motorsport calendar: users log in against the calendar's
API, browse events and sessions, and edit them through forms.

- `src/` is the verified library: login sessions and their store
  (`session`), the form types and the reading of the session edit form
  (`model`), the requests sent to the API (`client`), the decisions of the
  pages (`web`), decimal text (`decimal`), and the calls into `chrono`,
  `rand` and Rocket's URL decoding (`time`, `random`, `urlcode`).
- `app/` is the server around it: Rocket routes, templates, cookies, the
  HTTP calls to the API and the configuration file.
- `tests/` runs the library.
