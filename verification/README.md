# memebucket_server admin library

The admin features of the memebucket server, written in Verus.

`src/` is the verified library:

- `roles.rs` – stored roles and the role a user effectively has.
- `permissions.rs` – the known permissions and the set of permission names stored for a user.
- `text.rs` – text helpers (trimming, prefixes, digits) stated over character sequences.
- `calendar.rs` – snapshot dates: validity, order, next and previous day, `YYYY-MM-DD` text (chrono).
- `users.rs` – record ids (uuid), identities, user records, masking of provider ids, the Discord search key, user search planning, and the user list response.
- `admin_api.rs` – the decisions of the admin endpoints (access checks, role and permission changes, role writes) and the laws they obey.
- `stats.rs` – statistics snapshots: reading rows, building snapshots, storage metrics, backfill days.
- `stats_api.rs` – the statistics page: stable date ordering and the response.
- `errors.rs` – endpoint errors and decoding errors.

`app/` holds the HTTP handlers (axum), the database queries (sqlx) and the statistics service; each handler asks the library for its next step and runs the query or write that step names.

`tests/` runs the library on concrete values.
