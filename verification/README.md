# dnguyen_blog

The core of a small Markdown blog, verified with Verus.

- `src/` is the library: post previews (`models`), dates (`datetime`,
  `models::dto::date_repr`), month names and Markdown rendering (`htmlify`,
  through pulldown-cmark and ammonia), the decisions of the web routes
  (`routes`: listing pages, post references, tip-jar intent ids), request
  bodies (`http`), the database error (`error`) and the content manager's
  window state (`cms`).
- `app/` is the web server: Rocket routes, the diesel database connection,
  the pandoc subprocess that renders post bodies, and the serializable copies
  of the library's types.
- `tests/` runs the library on concrete values.
