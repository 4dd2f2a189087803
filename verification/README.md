# jtcpp

Reading JVM class files and jar archives, naming their items for C++, writing
C++ headers, and a small bytecode interpreter — with the logic verified by
Verus.

## Layout

- `src/importer/`: the class-file reader (`load_class`), its constant pool,
  attributes and instruction decoder, and jar archives (`jar::load_jar`,
  through the `zip` crate).
- `src/mangling.rs`, `src/class.rs`, `src/vartype.rs`: C++ spellings of
  class paths, method names and descriptors, descriptor parsing, and the
  conversion of an imported class into the C++ class model
  (`Class::from_java_class`, `Method::from_raw_method`).
- `src/cpp_codegen/`: include lists, namespace declarations, method
  signatures, class headers (`create_header`), the method-body writer, and
  method definitions (`method`: one statement per instruction with
  `write_op`, basic blocks with `fat_ops_to_bb_tree` and
  `BasicBlock::codegen`, whole methods with `create_method_impl`).
- `src/executor/`: resolving instructions against the constant pool
  (`fatops`), resolving classes (`fatclass`), linking (`class::finalize`),
  lowering to the interpreter's instructions and running one instruction at
  a time (`baseir::step`).
- `src/lib.rs`: the interpreter's values, objects, memory, loaded code
  (`CodeContainer`, whose slots hold interpreter code or native methods
  that the embedder runs) and environment (`ExecEnv`).
- `app/`: the command-line program (import, conversion, headers, one
  source file per method) and the interpreter's run loop, which performs
  the calls and float operations that `step` asks for.
- `tests/`: tests of the library on concrete inputs.
