# diagram_model

Verified core of two architecture-model extractors.

* **C++ callables** (`source_filter`, `cursor`, `scope`, `path`, `cpp_model`,
  `function_visitor`, `context`, `visitor`, `parse_outputs`): decides which
  sources and namespaces lie outside the model, derives a callable's scope
  from its semantic parents (namespace path kept apart from type path), extracts callable definitions with their calls,
  branches (guards kept as `&&`/`||`/`!` trees) and loops from a libclang
  cursor tree, and merges the definitions of several translation units.
* **PlantUML sequence diagrams** (`parse_tree`, `sequence_ast`,
  `sequence_parser`, `sequence_resolver`): builds the statement list of a
  diagram from its parse tree, then collects its participants and checks that
  messages only name declared ones.

`src/` is verified with Verus; each public function states its result over
the spec functions beside it, and the properties promised by the design
(guard flattening, final `else` unguarded, first definition wins, quoted
names stored without quotes, ...) are proved as `lemma_*` functions.

`app/` is the `cpp_parser` command line program: it loads libclang, reads each
translation unit into the library's cursor tree and writes the collected
definitions as JSON.

## Not in this library

Some parts of the wider tool are not held here, because their sources are
not part of this project:

* the PlantUML grammar that turns diagram text into a parse tree: the
  sequence parser starts from the parse tree (`parse_tree::ParseNode`), so
  grammar errors never arise inside it;
* the interaction tree that a resolved sequence diagram is turned into: the
  resolver checks participants and returns them with the diagram's name, but
  builds no tree of interactions;
* class and enum visiting, class relationship resolution and the type map:
  the traversal collects callable definitions only, and leaves the class
  information of its context untouched;
* the class-diagram and other serialised outputs: the program writes the
  collected definitions as JSON only.
