# photos

The verified core of a photo library, written in Verus.

- `src/` is the library. Verus proves every function in it against its contract, except
  the two small calls into tokio-util and tokio in `task` (whether a cancellation token is set, and
  taking a semaphore permit), whose bodies are trusted and which promise nothing of
  their results.
  - `task`, `triple_queue`, `scheduler`: the background task queue. Tasks wait in one
    first-in first-out queue per priority; a scheduling round lets the least urgent
    running priority (or, when nothing runs, the most urgent waiting one) decide which
    priorities may start, and starts tasks within a total limit and a limit per
    priority. `drain_in_priority_order` empties the queue at shutdown.
  - `image_format`: the codes under which the metadata store records image formats.
  - `face_clusters`: grouping (face, detection) rows into clusters, and giving each
    cluster id of a clustering run its own key.
  - `clustering`: the cases of face clustering that need no run, the number of
    clusters in a labelling, and the face id that each label assigns.
  - `gallery_layout`, `import_flow`, `import_filter`, `storage`: the decisions of the
    screens: which grid items are drawn, how the selection moves, the stages of an
    import, which files are imported, and how the image stores serve a request.
  - `workflow`, `services`, `config`: error types with their messages, the job error
    of a step's outcome, and the library's configuration.
- `tests/` runs the library on concrete values.
- `app/` is the runtime around it: the task queue's tokio worker, the clustering run
  on float embeddings, the file system side of imports, conversions from the `image`
  crate, and error types implementing `std::error::Error`.
