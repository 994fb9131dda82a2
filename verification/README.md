# object_store_server

An object storage service with versioning and lifecycle management, written as a
verified library: its contracts are stated in Verus and proved.

- `src/` is the library. Value objects (`value_objects`, `bucket`, `time`, `tags`),
  the storage adapters over `object_store`'s in-memory store (`memory_store`, `store`,
  `versioned_store`), the repositories and services (`object_*`, `versioning_*`,
  `lifecycle_*`), lifecycle evaluation (`evaluation`, `store_lifecycle`), the MinIO XML
  form (`minio`, `lifecycle_adapter`), the HTTP handlers and routing (`*_handlers`,
  `routing`, `object_store_service`, `dto`), and the laws (`laws`, `lifecycle_laws`).
- `app/` is the server: command line, logging, the axum routes and the lifecycle worker.
  The object, versioning and lifecycle routes share one object repository and one store.
- `tests/` exercises the library.
