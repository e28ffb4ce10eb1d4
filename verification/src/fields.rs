//! The column list of an `insert` clause and the value tuple of a record.

use vstd::prelude::*;
use crate::arguments::{Arguments, Settings};
use crate::error::ConvertError;
use crate::text::{concat, joined, push_quoted, texts};
use crate::value::{get_value, sql_literal};

verus! {

/// The column names that a run uses: the explicit columns when there are any,
/// else the header record, else nothing.
pub open spec fn resolved_fields(cfg: Settings, headers: Seq<Seq<char>>) -> Option<Seq<Seq<char>>> {
    if cfg.columns.len() > 0 {
        Some(cfg.columns)
    } else if cfg.has_headers {
        Some(headers)
    } else {
        None
    }
}

/// Column names as they stand in an `insert` clause: `(a, b, c)`.
pub open spec fn field_list(fields: Seq<Seq<char>>) -> Seq<char> {
    "("@ + joined(fields, ", "@) + ")"@
}

/// The SQL literal of each field of `record`.
pub open spec fn literals(record: Seq<Seq<char>>, typed: bool) -> Seq<Seq<char>> {
    record.map_values(|raw: Seq<char>| sql_literal(raw, typed))
}

/// The values of one record as they stand in an `insert` statement: `(1, 'x')`.
pub open spec fn value_tuple(record: Seq<Seq<char>>, typed: bool) -> Seq<char> {
    "("@ + joined(literals(record, typed), ", "@) + ")"@
}

/// `items` with `sep` put between each two neighbours.
pub open spec fn interspersed(items: Seq<Seq<char>>, sep: Seq<char>) -> Seq<Seq<char>> {
    Seq::new(
        if items.len() == 0 {
            0nat
        } else {
            (2 * items.len() - 1) as nat
        },
        |i: int|
            if i % 2 == 0 {
                items[i / 2]
            } else {
                sep
            },
    )
}

/// Writing out interspersed parts is joining them.
pub proof fn lemma_concat_interspersed(items: Seq<Seq<char>>, sep: Seq<char>)
    ensures
        concat(interspersed(items, sep)) == joined(items, sep),
    decreases items.len(),
{
    let whole = interspersed(items, sep);
    if items.len() == 0 {
    } else if items.len() == 1 {
        assert(whole.drop_last() =~= Seq::<Seq<char>>::empty());
        assert(concat(whole.drop_last()) =~= Seq::<char>::empty());
        assert(concat(whole) =~= items[0]);
    } else {
        let shorter = interspersed(items.drop_last(), sep);
        lemma_concat_interspersed(items.drop_last(), sep);
        assert(whole.drop_last().drop_last() =~= shorter);
        assert(whole.last() == items.last());
        assert(whole.drop_last().last() == sep);
        assert(concat(whole.drop_last()) == concat(shorter) + sep);
        assert(concat(whole) =~= concat(shorter) + sep + items.last());
    }
}

/// Puts `separator` between each two neighbours of `items`.
///
/// Trusted: `itertools::intersperse` yields the items in their order with a
/// clone of the separator between each two, and nothing before the first or
/// after the last.
#[verifier::external_body]
fn intersperse_strings(items: Vec<String>, separator: String) -> (res: Vec<String>)
    ensures
        texts(res@) == interspersed(texts(items@), separator@),
{
    itertools::intersperse(items, separator).collect()
}

/// Appends every string of `parts` to `out`.
fn push_all(out: &mut String, parts: &Vec<String>)
    ensures
        final(out)@ == old(out)@ + concat(texts(parts@)),
{
    let mut i: usize = 0;
    while i < parts.len()
        invariant
            i <= parts.len(),
            out@ == old(out)@ + concat(texts(parts@).take(i as int)),
        decreases parts.len() - i,
    {
        proof {
            let all = texts(parts@);
            assert(all.take(i + 1).drop_last() == all.take(i as int));
        }
        out.append(parts[i].as_str());
        i += 1;
    }
    proof {
        let all = texts(parts@);
        assert(all.take(all.len() as int) == all);
    }
}

/// Resolves the column names of the `insert` clause.
///
/// Explicit columns win over the header record. Without columns and without
/// headers there is nothing to name the columns by.
pub fn get_fields(args: &Arguments, headers: &Vec<String>) -> (res: Result<
    Vec<String>,
    ConvertError,
>)
    ensures
        match resolved_fields(args@, texts(headers@)) {
            Some(fields) => res matches Ok(v) && texts(v@) == fields,
            None => res matches Err(e) && e == ConvertError::InvalidConfiguration,
        },
{
    if args.columns.len() == 0 && !args.has_headers {
        return Err(ConvertError::InvalidConfiguration);
    }
    let from = if args.columns.len() == 0 {
        headers
    } else {
        &args.columns
    };
    let mut fields: Vec<String> = Vec::new();
    let mut i: usize = 0;
    while i < from.len()
        invariant
            i <= from.len(),
            texts(fields@) == texts(from@).take(i as int),
        decreases from.len() - i,
    {
        let ghost before = texts(fields@);
        fields.push(from[i].clone());
        i += 1;
        proof {
            assert(texts(fields@) =~= before.push(from[i - 1]@));
            assert(texts(from@).take(i as int) =~= before.push(from[i - 1]@));
        }
    }
    proof {
        assert(texts(from@).take(from.len() as int) == texts(from@));
    }
    Ok(fields)
}

/// The column list `(a, b, c)` of the given names.
pub fn format_fields(fields: Vec<String>) -> (res: String)
    ensures
        res@ == field_list(texts(fields@)),
{
    let ghost names = texts(fields@);
    let parts = intersperse_strings(fields, String::from_str(", "));
    proof {
        lemma_concat_interspersed(names, ", "@);
    }
    let mut out = String::from_str("(");
    push_all(&mut out, &parts);
    out.append(")");
    out
}

/// Appends the SQL literal of `raw` to `out`.
fn push_literal(out: &mut String, raw: &str, typed: bool)
    ensures
        final(out)@ == old(out)@ + sql_literal(raw@, typed),
{
    if typed {
        let value = get_value(raw);
        out.append(value.as_str());
    } else {
        push_quoted(out, raw);
    }
}

/// The value tuple `(v1, v2, ...)` of one record, typed or quoted.
pub fn format_values(record: &Vec<String>, typed: bool) -> (res: String)
    ensures
        res@ == value_tuple(texts(record@), typed),
{
    let ghost values = literals(texts(record@), typed);
    let mut out = String::from_str("(");
    let mut i: usize = 0;
    while i < record.len()
        invariant
            i <= record.len(),
            values == literals(texts(record@), typed),
            out@ == "("@ + joined(values.take(i as int), ", "@),
        decreases record.len() - i,
    {
        proof {
            assert(values.take(i + 1).drop_last() == values.take(i as int));
        }
        if i > 0 {
            out.append(", ");
        }
        push_literal(&mut out, record[i].as_str(), typed);
        i += 1;
    }
    proof {
        assert(values.take(values.len() as int) == values);
    }
    out.append(")");
    out
}

/// The value tuple `(v1, v2, ...)` of one record, as the run's configuration
/// asks for it.
pub fn get_values(args: &Arguments, record: &Vec<String>) -> (res: String)
    ensures
        res@ == value_tuple(texts(record@), args.typed),
{
    format_values(record, args.typed)
}

} // verus!
