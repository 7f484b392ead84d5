# open_fair_flow

The server side of OpenFairFlow, a workbench for datasets and
federated-learning experiments, with its decisions verified by Verus.

- `src/` is the verified library: the session store and the request check
  (`auth`), the storage layout of records and the order of listings
  (`store`), dataset records, links and HuggingFace downloads (`datasets`),
  previews and class distributions (`preview`), the parquet table viewer
  (`viewer`, over the plain model of a parquet file in `table`), workspaces
  and the Python runner (`workspaces`), the federated-learning script
  generator (`config`), and what the pages compute from their input
  (`pages`). `text` holds the string routines they share.
- `app/` is the HTTP server around it: SQLite, the file system, parquet
  reading, HTTP downloads and the Python subprocess. It hands the library
  plain values and writes back what the library decided.
- `tests/` runs the library on concrete values.

The Python runner reads its script template at run time from the file named
by `RUNNER_TEMPLATE` (default `python_runner_template.py`).
