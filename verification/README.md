# query_core

Two pieces of a columnar query engine, verified with Verus.

## Grouping by dictionary-encoded columns

`group_values::dictionary::DictionaryGroupValuesColumn` holds the group keys of a column
whose arrays are dictionary-encoded. It keeps each distinct value once, in an inner column,
and for each group the number of its slot there. The contracts speak of the sequence of
group values: appending adds to it, comparing looks into it, `build` and `take_n` hand it
out as dictionary-encoded arrays whose keys number no value twice and null not at all.
The values are flat, or lists, maps or structs of flat values: `type_shape::groupable` says
which types those are, and why others are not.

## Simplification of expressions

`simplifier::PhysicalExprSimplifier` moves negations inwards, removes casts from comparisons
with literals and evaluates constants, until nothing changes or the expression was gone
through five times. `simplify_expressions::cast_preimage` removes casts from single
predicates, IN lists included.

Which source values a cast maps to a literal, and what a constant evaluates to, is not
computed here. A rewrite that needs an answer returns `Step::Ask` with the question; the
caller adds the answer to `Answers` and starts the rewrite again.

`simplifier::laws` states what simplification keeps: for every row, what the expression
gives. It speaks of an evaluation of expressions, `expr::eval`, with nulls and three-valued
logic, over any engine whose answers are right. `simplifier::type_laws` states that the
data type is kept where every expression in it has one, the answers are of the types that
were asked about, and no double negation of something that is not Boolean is removed where
its type shows (`NOT NOT NULL` is Boolean, `NULL` is not). Functions next to the law test
these conditions.

## Layout

* `src/` is the library.
* `tests/` runs it, with an engine of its own that answers the questions.
* `app/` connects the library to an engine, to its arrays and to the expressions of logical
  plans.
