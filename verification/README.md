# paradox_server

The LU-Explorer server: a JSON API over the LEGO Universe game data (the
tables of the CDClient database, `locale.xml`, and a reverse lookup built
from the tables), and the single-page app with per-page metadata.

`src/` is the library, verified with Verus:

- `api` — the API routes and how each request is answered; the tables API
  (primary keys, buckets, column choice); the locale tree, its selection by
  path and the locale query; the reverse lookup (`api::rev`): its records,
  how they are built from the tables, and what each route answers; the
  GraphQL-to-SQL planner and the folding of SQL rows into JSON.
- `routing`, `auth`, `middleware`, `config` — host redirects, the routing of
  requests to the API, resources, fallback files and the app, the
  authorization check, CORS settings and the configuration values.
- `services` — the page template (`minihb`), the rewriting of the app's
  index page into a template (`meta_tags`), the app routes and page
  metadata (`spa`) and resource paths (`res`).
- `text`, `lists`, `decimal`, `strmap`, `path`, `ordered`, `latin1` — text
  parsing and printing, a sorted string map, path segments.

`app/` is the program around it: configuration files, the database and
locale files, SQLite reads, HTTP serving and JSON output.
`tests/` holds the tests of the library.
