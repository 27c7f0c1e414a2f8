# column-rs

Columnar analytics over Parquet files: SQL queries in an interactive session or
one at a time, `EXPLAIN` of a query's plan and of its opcodes, and ahead-of-time
compilation of a query. It reads Parquet and never writes it.

The rules of the engine and of its command line are a Verus library: every
function has a contract, and Verus proves the function against it. The SQL
parser, the planner and the vectorized engine (`db-core`), the Parquet reader
(`db-storage`) and the prompt (`db-cli`) are crates of their own.

## Layout

- `src/`: the verified library. Public proof functions whose names begin with
  `law_` state what holds across functions, such as that a streamed query writes
  the same text as a collected one, or that a column that does not decode is
  never read as nulls.
- `tests/`: the library, run on examples.
- `app/`: the program around it. It opens files, calls the parser, the planner
  and the engine when the library asks for them, and writes what the library
  answers.

Two things are taken on trust. `text::integer_text` prints an integer by `itoa`
and is believed to give its decimal notation. A floating-point number never
enters the library as such: it is held by its bits while it is moved, and by its
digits once it is printed.

## Usage

```bash
# Interactive session: table names are each file's stem
column-rs orders.parquet customers.parquet

# One query
column-rs -c "SELECT id, amount FROM orders WHERE amount > 1000" orders.parquet

# Compile a query ahead of time
column-rs codegen "SELECT id FROM orders WHERE amount > 1000" --out query.rs
```
