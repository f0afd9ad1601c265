# raygeo

A sequence of machining commands (moves, machine state, structural markers) and the operations
that build it, read it, split it, rewrite it layer by layer or point by point, and correct its
raster passes. The library in `src/` is verified with Verus.

- `src/ops`: the commands, the sequence, its sections, and the transformers.
- `src/python`: the interface that Python callers see, without Python: plain values in, plain
  values or errors out. Where a Python callback takes part, the library decides step by step what
  is to be asked next, and the caller asks.
- `src/binary64.rs`: IEEE 754 numbers as bit patterns. The library compares them and converts
  them to integers; arithmetic that makes new numbers is left to the caller.
- `tests`: the library at work on concrete values.
- `app`: the Python extension module around the library, with the floating-point arithmetic.

Functions named `law_..` state what holds across operations: that the pieces of a split make up
the sequence again, that applying a state reaches it, that the correction of raster passes leaves
every pass alone that runs with the scan, and so on.
