//! What holds of every run, stated over the functions that say what a run
//! produces.

use vstd::prelude::*;
use vstd::arithmetic::div_mod::{lemma_fundamental_div_mod, lemma_mod_bound};
use crate::arguments::Settings;
use crate::emitter::{insert_header, plan_of, Plan};
use crate::error::ConvertError;
use crate::fields::{field_list, literals, resolved_fields, value_tuple};
use crate::framing::framing_of;
use crate::record::SourceView;
use crate::target::{converted_to_sql, file_of, sql_of, InputView};
use crate::text::{escaped, joined, quoted};
use crate::value::sql_literal;

verus! {

/// Explicit column names are the column list of every statement, whether or
/// not the source has a header record and whatever that record holds.
pub proof fn law_columns_win(cfg: Settings, headers: Seq<Seq<char>>)
    requires
        cfg.columns.len() > 0,
    ensures
        resolved_fields(cfg, headers) == Some(cfg.columns),
        plan_of(cfg, resolved_fields(cfg, headers).unwrap()).header == "insert into "@ + cfg.table
            + " ("@ + joined(cfg.columns, ", "@) + ") values"@,
{
    reveal_strlit(" (");
    reveal_strlit(" ");
    reveal_strlit("(");
    reveal_strlit(")");
    reveal_strlit(") values");
    reveal_strlit(" values");
    let names = joined(cfg.columns, ", "@);
    assert(insert_header(cfg.table, field_list(cfg.columns)) =~= "insert into "@ + cfg.table
        + " ("@ + names + ") values"@);
}

/// Escaping works character by character: a single quote becomes two, any
/// other character stays, and the order is kept.
pub proof fn law_escaping_is_per_character(a: Seq<char>, b: Seq<char>, c: char)
    ensures
        escaped(a + b) == escaped(a) + escaped(b),
        escaped(seq![c]) == if c == '\'' {
            seq!['\'', '\'']
        } else {
            seq![c]
        },
    decreases b.len(),
{
    assert(seq![c].drop_last() =~= Seq::<char>::empty());
    assert(seq![c].last() == c);
    assert(escaped(Seq::<char>::empty()) =~= Seq::<char>::empty());
    assert(escaped(seq![c]) =~= if c == '\'' {
        seq!['\'', '\'']
    } else {
        seq![c]
    });
    if b.len() == 0 {
        assert(a + b =~= a);
        assert(escaped(a) + escaped(b) =~= escaped(a));
    } else {
        law_escaping_is_per_character(a, b.drop_last(), c);
        assert((a + b).drop_last() =~= a + b.drop_last());
        assert((a + b).last() == b.last());
        assert(escaped(a + b) =~= escaped(a) + escaped(b));
    }
}

/// Without typing every field is a quoted string with its single quotes
/// doubled: an empty field is the empty string literal, and no field is ever
/// written as `NULL`.
pub proof fn law_untyped_values_are_quoted(record: Seq<Seq<char>>)
    ensures
        literals(record, false) == record.map_values(|raw: Seq<char>| quoted(raw)),
        value_tuple(record, false) == "("@ + joined(
            record.map_values(|raw: Seq<char>| quoted(raw)),
            ", "@,
        ) + ")"@,
        sql_literal(Seq::empty(), false) == "''"@,
        forall|i: int| 0 <= i < record.len() ==> (#[trigger] literals(record, false)[i]) != "NULL"@,
{
    reveal_strlit("''");
    reveal_strlit("NULL");
    assert(literals(record, false) =~= record.map_values(|raw: Seq<char>| quoted(raw)));
    assert(sql_literal(Seq::empty(), false) =~= "''"@);
    assert forall|i: int| 0 <= i < record.len() implies (#[trigger] literals(record, false)[i])
        != "NULL"@ by {
        assert(literals(record, false)[i][0] == '\'');
    }
}

/// Quotient and remainder of a natural number by a positive one.
proof fn lemma_div_mod_bounds(i: int, d: int)
    requires
        0 <= i,
        0 < d,
    ensures
        0 <= i % d < d,
        0 <= i / d,
        (i / d) * d <= i < (i / d + 1) * d,
        i % d == 0 <==> i == (i / d) * d,
        i == 0 ==> i / d == 0,
        i > 0 && i % d == 0 ==> i / d > 0,
{
    lemma_fundamental_div_mod(i, d);
    lemma_mod_bound(i, d);
    let q = i / d;
    let r = i % d;
    assert(d * q == q * d && (q + 1) * d == q * d + d) by (nonlinear_arith);
    assert(q >= 0) by (nonlinear_arith)
        requires
            i == q * d + r,
            0 <= i,
            0 <= r < d,
            0 < d,
    ;
    if i == 0 {
        assert(q == 0) by (nonlinear_arith)
            requires
                0 == q * d + r,
                0 <= r,
                0 <= q,
                0 < d,
        ;
    }
}

/// With a limit of `c` rows per statement, statement `k` holds exactly the
/// rows `k * c` up to, and without, `(k + 1) * c`: the first of them opens
/// the statement, every other one continues it after a comma.
pub proof fn law_rows_of_a_statement(plan: Plan, i: int)
    requires
        plan.chunk_insert > 0,
        0 <= i,
    ensures
        ({
            let c = plan.chunk_insert as int;
            let k = plan.statement_of(i);
            &&& 0 <= k
            &&& k * c <= i < (k + 1) * c
            &&& plan.starts_statement(i) <==> i == k * c
            &&& !plan.starts_statement(i) ==> plan.lead(i) == ","@
        }),
{
    lemma_div_mod_bounds(i, plan.chunk_insert as int);
}

/// With a limit of `k` statements per block, block `b` holds exactly the
/// statements `b * k` up to, and without, `(b + 1) * k`. The first statement
/// of every block but the first follows a `commit` and a fresh
/// `begin transaction`; any other statement follows the end of the statement
/// before it, and the very first follows nothing, or the opening
/// `begin transaction`.
pub proof fn law_statements_of_a_block(plan: Plan, i: int)
    requires
        plan.chunk > 0,
        0 <= i,
        plan.starts_statement(i),
    ensures
        ({
            let k = plan.chunk as int;
            let s = plan.statement_of(i);
            let b = s / k;
            &&& 0 <= s
            &&& 0 <= b
            &&& b * k <= s < (b + 1) * k
            &&& plan.lead(i) == (if s > 0 && s == b * k {
                ";\n\ncommit;\n\nbegin transaction;\n\n"@
            } else if s == 0 && !plan.with_transaction {
                Seq::empty()
            } else {
                ";\n\n"@
            }) + plan.header
        }),
{
    reveal_strlit(";\n\n");
    reveal_strlit(";\n\ncommit;\n\nbegin transaction;\n\n");
    reveal_strlit(";\n\ncommit;\n\nbegin transaction");
    if plan.chunk_insert > 0 {
        lemma_div_mod_bounds(i, plan.chunk_insert as int);
    }
    let s = plan.statement_of(i);
    lemma_div_mod_bounds(s, plan.chunk as int);
    assert(plan.lead(i) =~= (if s > 0 && s == (s / (plan.chunk as int)) * (plan.chunk as int) {
        ";\n\ncommit;\n\nbegin transaction;\n\n"@
    } else if s == 0 && !plan.with_transaction {
        Seq::empty()
    } else {
        ";\n\n"@
    }) + plan.header);
}

/// With one statement per transaction block, every statement stands in a
/// block of its own: the first follows the opening `begin transaction`, every
/// later one follows a `commit` and a fresh `begin transaction`, rows inside
/// a statement follow a comma, and the last row is followed by a `commit`.
pub proof fn law_one_statement_per_block(plan: Plan, i: int)
    requires
        plan.chunk == 1,
        plan.with_transaction,
        0 <= i,
    ensures
        plan.opening() + plan.lead(0) == "begin transaction;\n\n"@ + plan.header,
        i > 0 && plan.starts_statement(i) ==> plan.lead(i)
            == ";\n\ncommit;\n\nbegin transaction;\n\n"@ + plan.header,
        !plan.starts_statement(i) ==> plan.lead(i) == ","@,
        plan.closing() == ";\n\ncommit;"@,
{
    reveal_strlit("begin transaction;\n\n");
    reveal_strlit("begin transaction");
    reveal_strlit(";\n\n");
    if plan.chunk_insert > 0 {
        lemma_div_mod_bounds(0, plan.chunk_insert as int);
        lemma_div_mod_bounds(i, plan.chunk_insert as int);
    }
    law_statements_of_a_block(plan, 0);
    assert(plan.opening() + plan.lead(0) =~= "begin transaction;\n\n"@ + plan.header);
    if i > 0 && plan.starts_statement(i) {
        law_statements_of_a_block(plan, i);
    }
}

/// The statement of a single row.
pub open spec fn single_statement(plan: Plan, row: Seq<Seq<char>>) -> Seq<char> {
    plan.header + "\n"@ + value_tuple(row, plan.typed)
}

/// With no transaction, no block limit and one row per statement, `N` rows
/// give exactly `N` statements: each begins with the `insert` clause, a
/// semicolon and a blank line part each from the next, a semicolon ends the
/// last, and no `begin transaction` stands in front.
pub proof fn law_plain_statements(plan: Plan, rows: Seq<Seq<Seq<char>>>)
    requires
        !plan.with_transaction,
        plan.chunk == 0,
        plan.chunk_insert == 0,
    ensures
        plan.body(rows) == joined(
            rows.map_values(|row: Seq<Seq<char>>| single_statement(plan, row)),
            ";\n\n"@,
        ),
        plan.script(rows) == joined(
            rows.map_values(|row: Seq<Seq<char>>| single_statement(plan, row)),
            ";\n\n"@,
        ) + ";"@,
    decreases rows.len(),
{
    let statements = rows.map_values(|row: Seq<Seq<char>>| single_statement(plan, row));
    if rows.len() == 0 {
    } else {
        law_plain_statements(plan, rows.drop_last());
        assert(statements.drop_last() =~= rows.drop_last().map_values(
            |row: Seq<Seq<char>>| single_statement(plan, row),
        ));
        if rows.len() == 1 {
            assert(plan.body(rows.drop_last()) =~= Seq::<char>::empty());
            assert(plan.body(rows) =~= statements[0]);
        } else {
            assert(plan.body(rows) =~= joined(statements.drop_last(), ";\n\n"@) + ";\n\n"@
                + statements.last());
        }
    }
    assert(plan.script(rows) =~= plan.body(rows) + ";"@);
}

/// A single-row statement in a transaction block of its own.
pub open spec fn wrapped_statement(plan: Plan, row: Seq<Seq<char>>) -> Seq<char> {
    "begin transaction;\n\n"@ + single_statement(plan, row) + ";\n\ncommit;"@
}

/// With a transaction, one statement per block and one row per statement, the
/// script is the rows' statements, each wrapped in a block of its own, with a
/// blank line between blocks.
pub proof fn law_wrapped_statements(plan: Plan, rows: Seq<Seq<Seq<char>>>)
    requires
        plan.with_transaction,
        plan.chunk == 1,
        plan.chunk_insert == 0,
        rows.len() > 0,
    ensures
        plan.script(rows) == joined(
            rows.map_values(|row: Seq<Seq<char>>| wrapped_statement(plan, row)),
            "\n\n"@,
        ),
    decreases rows.len(),
{
    reveal_strlit("begin transaction;\n\n");
    reveal_strlit("begin transaction");
    reveal_strlit(";\n\n");
    reveal_strlit("\n\n");
    reveal_strlit(";\n\ncommit;");
    reveal_strlit(";\n\ncommit;\n\nbegin transaction");
    let blocks = rows.map_values(|row: Seq<Seq<char>>| wrapped_statement(plan, row));
    let n = rows.len() as int;
    if n == 1 {
        assert(plan.body(rows.drop_last()) =~= Seq::<char>::empty());
        assert(plan.script(rows) =~= blocks[0]);
    } else {
        law_wrapped_statements(plan, rows.drop_last());
        assert(blocks.drop_last() =~= rows.drop_last().map_values(
            |row: Seq<Seq<char>>| wrapped_statement(plan, row),
        ));
        assert((n - 1) % 1 == 0);
        assert(plan.script(rows) =~= plan.script(rows.drop_last()) + "\n\n"@ + blocks.last());
    }
}

/// Prefix and suffix files that do not exist add nothing and fail nothing:
/// the output is the statements alone, and fails only where they do.
pub proof fn law_missing_framing(cfg: Settings, source: SourceView)
    ensures
        framing_of(None, cfg.table) == Ok::<Seq<char>, ConvertError>(Seq::empty()),
        file_of(cfg, source, None, None) == sql_of(cfg, source),
{
    match sql_of(cfg, source) {
        Ok(statements) => {
            assert(Seq::<char>::empty() + statements + Seq::<char>::empty() =~= statements);
        },
        Err(_) => {},
    }
}

/// A source that does not exist is reported as not found, whatever else the
/// input holds, and no output is produced.
pub proof fn law_missing_source(cfg: Settings, input: InputView)
    requires
        input.source is None,
    ensures
        converted_to_sql(cfg, input) == Err::<Seq<char>, ConvertError>(ConvertError::NotFound),
{
}

} // verus!
