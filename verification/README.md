# imputator

Records work logs ("imputations") from a CSV file in Tempo, the time-tracking
add-on of Jira.

- `src/` is the verified library: the comparison of imputations, the reading
  of durations such as `1h 30m`, the ordering of the rows by user, the URLs
  and request bodies sent to Jira and Tempo, the reading of their answers,
  the rewriting of the CSV rows and the decisions of a run (skip, create or
  update each imputation; when to open a new session).
- `app/` is the program around it: the CSV files, the SQLite cache, the
  HTTP requests and the loop over the imputations.
- `tests/` runs the library on concrete values.
