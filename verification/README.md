# transformer

Turns the published documentation of the VMware Cloud Director REST API (a
zip archive of HTML pages, XML Schemas and a script) into an OpenAPI 3
description, with the JSON media types of each operation.

The library under `src/` is written in Verus and verified: the readers of the
operation, query, type, landing and about pages; the readers of the XML
Schemas (annotations, simple and object types, fields, complex types, whole
schemas); the schema changes (query parameters, OVF stubs, superclasses);
and the assembly of paths, queries, types and schemas from the pages of the
archive. Each public function states what it returns over a model made of
sequences; the laws of the library (sorting, maps kept in insertion order,
well-formed paths, merged annotations) are public proof functions.

HTML and XML are parsed by `scraper` and `xmltree`, the elements of a page
are picked by `scraper`'s CSS selectors, HTML is turned into
Markdown by `html2md`, two regular expressions are run by `regex`, and the
ordered maps and sets are those of `indexmap`; the library calls them through
small wrappers whose contracts say what it relies on.

`app/` holds the program: it reads the archive, runs the script of the common
resources in V8, and writes the description as JSON with the types of the
`openapiv3` crate.
