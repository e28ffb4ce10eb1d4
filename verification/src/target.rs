//! Whole conversions: from a configuration and everything the outside world
//! supplies to the text of the script, or to the reason there is none.

use vstd::prelude::*;
use crate::arguments::{Arguments, Settings};
use crate::emitter::{plan_of, Emitter};
use crate::error::{agrees, ConvertError};
use crate::fields::{get_fields, resolved_fields};
use crate::framing::{framing_of, render_framing};
use crate::record::{Record, Source, SourceView};
use crate::text::texts;

verus! {

/// No record of `records` is malformed.
pub open spec fn all_well_formed(records: Seq<Option<Seq<Seq<char>>>>) -> bool {
    forall|i: int| 0 <= i < records.len() ==> (#[trigger] records[i]) is Some
}

/// The rows of well-formed records.
pub open spec fn rows_of(records: Seq<Option<Seq<Seq<char>>>>) -> Seq<Seq<Seq<char>>> {
    records.map_values(|r: Option<Seq<Seq<char>>>| r.unwrap())
}

/// The statements for `records` under column names already resolved: the
/// script of their rows, or a data error where one of them is malformed.
pub open spec fn statements_of(
    cfg: Settings,
    fields: Seq<Seq<char>>,
    records: Seq<Option<Seq<Seq<char>>>>,
) -> Result<Seq<char>, ConvertError> {
    if all_well_formed(records) {
        Ok(plan_of(cfg, fields).script(rows_of(records)))
    } else {
        Err(ConvertError::InvalidData)
    }
}

/// The column names of a run, or why there are none: a header record that
/// could not be read is a data error, column names that nothing gives are a
/// configuration error.
pub open spec fn fields_of(cfg: Settings, headers: Option<Seq<Seq<char>>>) -> Result<
    Seq<Seq<char>>,
    ConvertError,
> {
    match headers {
        None => Err(ConvertError::InvalidData),
        Some(names) => match resolved_fields(cfg, names) {
            None => Err(ConvertError::InvalidConfiguration),
            Some(fields) => Ok(fields),
        },
    }
}

/// The statements that a source gives.
pub open spec fn sql_of(cfg: Settings, source: SourceView) -> Result<Seq<char>, ConvertError> {
    match fields_of(cfg, source.headers) {
        Err(e) => Err(e),
        Ok(fields) => statements_of(cfg, fields, source.records),
    }
}

/// The whole output for a source and the contents of the prefix and suffix
/// files: prefix framing, statements, suffix framing. The steps are taken in
/// the order column names, prefix, records, suffix, and the first that fails
/// gives the error.
pub open spec fn file_of(
    cfg: Settings,
    source: SourceView,
    prefix: Option<Seq<char>>,
    suffix: Option<Seq<char>>,
) -> Result<Seq<char>, ConvertError> {
    match fields_of(cfg, source.headers) {
        Err(e) => Err(e),
        Ok(fields) => match framing_of(prefix, cfg.table) {
            Err(e) => Err(e),
            Ok(before) => match statements_of(cfg, fields, source.records) {
                Err(e) => Err(e),
                Ok(statements) => match framing_of(suffix, cfg.table) {
                    Err(e) => Err(e),
                    Ok(after) => Ok(before + statements + after),
                },
            },
        },
    }
}

/// The contents of an optional text.
pub open spec fn text_of(content: Option<String>) -> Option<Seq<char>> {
    match content {
        Some(text) => Some(text@),
        None => None,
    }
}

/// Everything a conversion takes from outside: the record source, absent
/// where there is no such file, and the contents of the prefix and suffix
/// files, each absent where there is no such file.
#[derive(Clone, Debug)]
pub struct Input {
    pub source: Option<Source>,
    pub prefix: Option<String>,
    pub suffix: Option<String>,
}

/// The contents of an [`Input`].
pub struct InputView {
    pub source: Option<SourceView>,
    pub prefix: Option<Seq<char>>,
    pub suffix: Option<Seq<char>>,
}

impl View for Input {
    type V = InputView;

    open spec fn view(&self) -> InputView {
        InputView {
            source: match self.source {
                Some(source) => Some(source@),
                None => None,
            },
            prefix: text_of(self.prefix),
            suffix: text_of(self.suffix),
        }
    }
}

/// The output of a conversion to SQL: a missing source is reported before
/// anything else is looked at.
pub open spec fn converted_to_sql(cfg: Settings, input: InputView) -> Result<
    Seq<char>,
    ConvertError,
> {
    match input.source {
        None => Err(ConvertError::NotFound),
        Some(source) => file_of(cfg, source, input.prefix, input.suffix),
    }
}

/// Resolves the column names of a run from the header record as the source
/// delivered it.
pub fn resolve_fields(args: &Arguments, headers: &Record) -> (res: Result<
    Vec<String>,
    ConvertError,
>)
    ensures
        match fields_of(args@, headers@) {
            Ok(fields) => res matches Ok(v) && texts(v@) == fields,
            Err(e) => res matches Err(x) && x == e,
        },
{
    match headers {
        Record::Fields(names) => get_fields(args, names),
        Record::Malformed => Err(ConvertError::InvalidData),
    }
}

/// Runs all `records` through an emitter.
fn emit_all(args: &Arguments, fields: Vec<String>, records: &Vec<Record>) -> (res: Result<
    String,
    ConvertError,
>)
    ensures
        agrees(
            res,
            statements_of(args@, texts(fields@), records@.map_values(|r: Record| r@)),
        ),
{
    let ghost plan = plan_of(args@, texts(fields@));
    let ghost all = records@.map_values(|r: Record| r@);
    let mut emitter = Emitter::new(args, fields);
    let mut out = emitter.opening();
    let mut i: usize = 0;
    while i < records.len()
        invariant
            i <= records.len(),
            all == records@.map_values(|r: Record| r@),
            emitter.plan() == plan,
            emitter.rows() == i,
            all_well_formed(all.take(i as int)),
            out@ == plan.opening() + plan.body(rows_of(all.take(i as int))),
        decreases records.len() - i,
    {
        match emitter.emit(&records[i]) {
            Ok(text) => {
                proof {
                    let before = all.take(i as int);
                    let now = all.take(i + 1);
                    assert(rows_of(now).drop_last() == rows_of(before));
                    assert(rows_of(now).last() == all[i as int].unwrap());
                    assert forall|j: int| 0 <= j < now.len() implies (#[trigger] now[j]) is Some by {
                        if j < i {
                            assert(before[j] is Some);
                        }
                    }
                }
                out.append(text.as_str());
            },
            Err(e) => {
                assert(all[i as int] is None);
                return Err(e);
            },
        }
        i += 1;
    }
    proof {
        assert(all.take(all.len() as int) == all);
    }
    out.append(emitter.closing().as_str());
    Ok(out)
}

/// The `insert` statements for a source, with their transaction wrapping.
pub fn generate_sql(args: &Arguments, source: &Source) -> (res: Result<String, ConvertError>)
    ensures
        agrees(res, sql_of(args@, source@)),
{
    match resolve_fields(args, &source.headers) {
        Ok(fields) => emit_all(args, fields, &source.records),
        Err(e) => Err(e),
    }
}

/// The whole output for a source: prefix framing, statements, suffix framing.
pub fn generate_sql_file(
    args: &Arguments,
    source: &Source,
    prefix: Option<&str>,
    suffix: Option<&str>,
) -> (res: Result<String, ConvertError>)
    ensures
        agrees(
            res,
            file_of(
                args@,
                source@,
                match prefix {
                    Some(text) => Some(text@),
                    None => None,
                },
                match suffix {
                    Some(text) => Some(text@),
                    None => None,
                },
            ),
        ),
{
    let fields = match resolve_fields(args, &source.headers) {
        Ok(fields) => fields,
        Err(e) => {
            return Err(e);
        },
    };
    let mut out = match render_framing(prefix, args.table.as_str()) {
        Ok(before) => before,
        Err(e) => {
            return Err(e);
        },
    };
    match emit_all(args, fields, &source.records) {
        Ok(statements) => out.append(statements.as_str()),
        Err(e) => {
            return Err(e);
        },
    }
    match render_framing(suffix, args.table.as_str()) {
        Ok(after) => out.append(after.as_str()),
        Err(e) => {
            return Err(e);
        },
    }
    Ok(out)
}

/// A kind of output that a conversion can produce.
pub trait Target {
    /// What [`Target::convert`] returns.
    spec fn converted(&self, cfg: Settings, input: InputView) -> Result<Seq<char>, ConvertError>;

    /// Converts the input to the text of the output.
    fn convert(&self, args: Arguments, input: &Input) -> (res: Result<String, ConvertError>)
        ensures
            agrees(res, self.converted(args@, input@)),
    ;
}

/// Output as a script of SQL `insert` statements.
#[derive(Clone, Copy, Debug)]
pub struct TargetSql {}

/// Output for a CSV target, which is written as the SQL script is.
#[derive(Clone, Copy, Debug)]
pub struct TargetCsv {}

/// Converts the input to a SQL script.
fn convert_to_sql(args: &Arguments, input: &Input) -> (res: Result<String, ConvertError>)
    ensures
        agrees(res, converted_to_sql(args@, input@)),
{
    let source = match &input.source {
        Some(source) => source,
        None => {
            return Err(ConvertError::NotFound);
        },
    };
    let prefix = match &input.prefix {
        Some(text) => Some(text.as_str()),
        None => None,
    };
    let suffix = match &input.suffix {
        Some(text) => Some(text.as_str()),
        None => None,
    };
    generate_sql_file(args, source, prefix, suffix)
}

impl Target for TargetSql {
    open spec fn converted(&self, cfg: Settings, input: InputView) -> Result<
        Seq<char>,
        ConvertError,
    > {
        converted_to_sql(cfg, input)
    }

    fn convert(&self, args: Arguments, input: &Input) -> (res: Result<String, ConvertError>) {
        convert_to_sql(&args, input)
    }
}

impl Target for TargetCsv {
    open spec fn converted(&self, cfg: Settings, input: InputView) -> Result<
        Seq<char>,
        ConvertError,
    > {
        converted_to_sql(cfg, input)
    }

    fn convert(&self, args: Arguments, input: &Input) -> (res: Result<String, ConvertError>) {
        convert_to_sql(&args, input)
    }
}

} // verus!
