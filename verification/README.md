# supawatch

Keeps a local Supabase project folder in step with its remote database.

`src/` is the verified library:

- `schema`, `name_map`, `text`: the schema model and the text operations it needs.
- `parsing`, `sql_ast`: reading schema SQL (through `sqlparser`) into the model.
- `introspection`: reading the catalogue rows of a live database into the model.
- `diff`, `generator`: the diff between two schemas, its summary and the migration SQL.
- `sync`: the steps of a push and of a pull, edge-function files, project creation choices.
- `supabase_api`: the management API's URLs, SQL, answers and errors.
- `models`, `state`: projects, the activity log and the stored state.
- `watcher`: classifying file changes and spacing automatic pushes.
- `laws`: laws that span the diff, the SQL, the summary and a push.

`app/` is the command-line program around it: HTTP, files, the watcher threads and JSON.
