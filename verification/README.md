# slatedb_cloudflare

The verified part of a key-value database that keeps its data in an R2 bucket and runs behind a
Cloudflare worker or in a container. `src/` holds what the service decides and computes; Verus
proves every function there against its contract. `app/` holds what surrounds it: the HTTP service
of the container, the worker with its durable object, and the adapters to the bucket, the bridge in
front of it and the storage of a durable object.

| Modules | What they decide |
| --- | --- |
| `r2_store`, `bridge`, `binding_store` | what is asked of a bucket, and what its answers mean |
| `options`, `range`, `put`, `list`, `multipart`, `payload` | conditions, ranges, pages, parts and chunks |
| `object`, `container`, `session` | who is let in, what a request asks for, which database is open |
| `names`, `rows`, `benchmark` | names of databases, rows and scans, measurements |
| `do_cache`, `db_cache`, `perf` | cache keys, the cache of decoded blocks, counters |
| `error`, `path`, `time`, `text` | what the others are made of |

Calls into other crates stand behind small functions whose contracts are believed, not proved; each
says above it which function it calls and what it claims of it. Public proof functions named `law_`
state what holds across functions.
