# anthem

A verified library for translating answer set programs into first-order
theories and for preparing the problems that a theorem prover checks when two
programs, or a program and a specification, are claimed to be equivalent.

Layout:

- `src/syntax_tree`: programs, terms and formulas, with their mathematical models.
- `src/parsing`: readers for programs, formulas, theories, specifications and
  user guides, each stated by a grammar over characters.
- `src/formatting`: the default, TPTP and ILTP texts of the syntax trees.
- `src/translating`: tau-star, completion, ordered completion, gamma and the
  shorthand translation.
- `src/simplifying`, `src/breaking`: simplification and equivalence breaking.
- `src/analyzing`: tightness and private recursion.
- `src/verifying`: proof outlines, problems, their decompositions, the tasks of
  strong, external and intuitionistic equivalence, and prover reports.
- `app/`: the command line program around the library.

Problems for a prover are built as the tasks state them. A symbol that has the
name of a propositional predicate is not renamed in them: no renaming of such
symbols is defined here, so a prover may read the two as one name.

The default text of a formula sets off operands only where precedence asks for
it; annotated formulas, as in specifications and user guides, are written in
the layout in which they are written by hand, with integer variables marked by
`$`, terms separated by a comma alone and the scope of a quantifier in spaced
parentheses.
