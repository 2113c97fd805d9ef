# rust_core

The core of a columnar data service that runs in the browser: CSV data is
read into Arrow record batches, kept in memory, described as metadata and
queried by row windows and column projections, and handed to JavaScript as
raw column buffers.

- `src/` is the library, verified with Verus:
  - `text`: splitting a comma-separated list of column names;
  - `column_type`: column data types and their simple names;
  - `buffers`: which buffers of a column are handed out, and how labelled;
  - `window`: the slices of the batches that hold the rows
    `offset .. offset + limit`, with the laws that relate them;
  - `store`: the stored schema and batches and the steps that change them;
  - `csv`: the schema inferred from CSV text and the batches read from it
    through Arrow's CSV reader, each tagged with where it was read from;
  - `seed`: the seeding steps, at once or as a header and chunks;
  - `query`: query routing, the projection and limit/offset plan, and
    metadata.
- `app/` is the WebAssembly front end: the shared store behind a lock, the
  JS exports, and the Arrow work that carries out the library's plans
  (slicing, projecting and concatenating batches, IPC encoding). It reads
  Arrow arrays into the library's column model and builds the JSON and JS
  values returned to the page. Filtering, pivoting and sorting are not part
  of this build.
- `tests/` runs the library on concrete values.
