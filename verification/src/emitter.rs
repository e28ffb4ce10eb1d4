//! Batching of rows into `insert` statements and of statements into
//! transaction blocks.
//!
//! A [`Plan`] says, as a function of a row's position in the stream, what text
//! that row contributes to the script. An [`Emitter`] produces that text one
//! record at a time, so that a caller can stream records of any number through
//! it.

use vstd::prelude::*;
use vstd::arithmetic::div_mod::{
    lemma_fundamental_div_mod,
    lemma_fundamental_div_mod_converse,
    lemma_mod_bound,
};
use crate::arguments::{Arguments, Settings};
use crate::error::ConvertError;
use crate::fields::{field_list, format_fields, format_values, value_tuple};
use crate::record::Record;
use crate::text::texts;

verus! {

/// The clause that opens every `insert` statement.
pub open spec fn insert_header(table: Seq<char>, fields: Seq<char>) -> Seq<char> {
    "insert into "@ + table + " "@ + fields + " values"@
}

/// How the rows of a run are laid out in the script.
pub struct Plan {
    /// The clause that opens every statement.
    pub header: Seq<char>,
    /// Statements per transaction block; 0 for no limit.
    pub chunk: nat,
    /// Rows per statement; 0 for one row per statement.
    pub chunk_insert: nat,
    /// Wrap the script in `begin transaction` and `commit`.
    pub with_transaction: bool,
    /// Infer literal types instead of quoting every value.
    pub typed: bool,
}

/// The plan that a configuration and the resolved column names give.
pub open spec fn plan_of(cfg: Settings, fields: Seq<Seq<char>>) -> Plan {
    Plan {
        header: insert_header(cfg.table, field_list(fields)),
        chunk: cfg.chunk,
        chunk_insert: cfg.chunk_insert,
        with_transaction: cfg.with_transaction,
        typed: cfg.typed,
    }
}

impl Plan {
    /// Row `i` is the first row of a statement.
    pub open spec fn starts_statement(self, i: int) -> bool {
        self.chunk_insert == 0 || i % (self.chunk_insert as int) == 0
    }

    /// The number of the statement that row `i` belongs to, counted from 0.
    pub open spec fn statement_of(self, i: int) -> int {
        if self.chunk_insert == 0 {
            i
        } else {
            i / (self.chunk_insert as int)
        }
    }

    /// Statement `k` is the first of a transaction block other than the first.
    pub open spec fn starts_block(self, k: int) -> bool {
        self.chunk > 0 && k > 0 && k % (self.chunk as int) == 0
    }

    /// What is written between the previous row, if any, and the values of
    /// row `i`, up to the line break.
    ///
    /// The first row of a statement closes the statement before it, closes
    /// and reopens the transaction block where a block is full, and opens its
    /// own statement. Any other row continues the statement with a comma.
    /// Blocks are cycled whether or not the script is wrapped in a
    /// transaction.
    pub open spec fn lead(self, i: int) -> Seq<char> {
        if self.starts_statement(i) {
            let k = self.statement_of(i);
            (if self.starts_block(k) {
                ";\n\ncommit;\n\nbegin transaction"@
            } else {
                Seq::empty()
            }) + (if k == 0 && !self.with_transaction {
                Seq::empty()
            } else {
                ";\n\n"@
            }) + self.header
        } else {
            ","@
        }
    }

    /// The text that row `i` of the stream adds to the script.
    pub open spec fn row_text(self, i: int, row: Seq<Seq<char>>) -> Seq<char> {
        self.lead(i) + "\n"@ + value_tuple(row, self.typed)
    }

    /// The text of all `rows`, in order.
    pub open spec fn body(self, rows: Seq<Seq<Seq<char>>>) -> Seq<char>
        decreases rows.len(),
    {
        if rows.len() == 0 {
            Seq::empty()
        } else {
            self.body(rows.drop_last()) + self.row_text(rows.len() - 1, rows.last())
        }
    }

    /// What stands before the first statement.
    pub open spec fn opening(self) -> Seq<char> {
        if self.with_transaction {
            "begin transaction"@
        } else {
            Seq::empty()
        }
    }

    /// What stands after the last row.
    pub open spec fn closing(self) -> Seq<char> {
        if self.with_transaction {
            ";\n\ncommit;"@
        } else {
            ";"@
        }
    }

    /// The whole script for `rows`.
    pub open spec fn script(self, rows: Seq<Seq<Seq<char>>>) -> Seq<char> {
        self.opening() + self.body(rows) + self.closing()
    }
}

/// What is written before the next piece of output.
#[derive(Clone, Copy, PartialEq, Eq, Structural)]
enum Separator {
    Nothing,
    Statement,
    Row,
}

impl Separator {
    spec fn text(self) -> Seq<char> {
        match self {
            Separator::Nothing => Seq::empty(),
            Separator::Statement => ";\n\n"@,
            Separator::Row => ","@,
        }
    }

    fn as_str(self) -> (res: &'static str)
        ensures
            res@ == self.text(),
    {
        proof {
            reveal_strlit("");
        }
        match self {
            Separator::Nothing => "",
            Separator::Statement => ";\n\n",
            Separator::Row => ",",
        }
    }
}

/// The counters that an [`Emitter`] carries from one record to the next.
struct Progress {
    /// Statements in the current transaction block; kept only when blocks
    /// are limited.
    chunk_count: usize,
    /// Rows in the current statement; kept only when statements are limited.
    chunk_insert_count: usize,
    separator: Separator,
    rows: Ghost<nat>,
}

/// The state of one run: its plan and how far it has come.
pub struct Emitter {
    header: String,
    chunk: usize,
    chunk_insert: usize,
    with_transaction: bool,
    typed: bool,
    progress: Progress,
}

/// Stepping from `a` to `a + 1` either steps the remainder or wraps it and
/// steps the quotient.
proof fn lemma_succ_div_mod(a: int, d: int)
    requires
        0 <= a,
        0 < d,
    ensures
        0 <= a % d < d,
        (a + 1) % d == if a % d + 1 == d {
            0
        } else {
            a % d + 1
        },
        (a + 1) / d == if a % d + 1 == d {
            a / d + 1
        } else {
            a / d
        },
{
    lemma_fundamental_div_mod(a, d);
    lemma_mod_bound(a, d);
    let q = a / d;
    let r = a % d;
    assert(d * q == q * d) by (nonlinear_arith);
    if r + 1 == d {
        assert(a + 1 == (q + 1) * d + 0) by (nonlinear_arith)
            requires
                a == q * d + r,
                r + 1 == d,
        ;
        lemma_fundamental_div_mod_converse(a + 1, d, q + 1, 0);
    } else {
        lemma_fundamental_div_mod_converse(a + 1, d, q, r + 1);
    }
}

impl Emitter {
    /// The plan that the emitter follows.
    pub closed spec fn plan(&self) -> Plan {
        Plan {
            header: self.header@,
            chunk: self.chunk as nat,
            chunk_insert: self.chunk_insert as nat,
            with_transaction: self.with_transaction,
            typed: self.typed,
        }
    }

    /// The number of rows emitted so far.
    pub closed spec fn rows(&self) -> nat {
        self.progress.rows@
    }

    #[verifier::type_invariant]
    spec fn counters_follow_rows(&self) -> bool {
        let n = self.progress.rows@ as int;
        let plan = self.plan();
        &&& self.progress.chunk_insert_count == if self.chunk_insert > 0 {
            n % (self.chunk_insert as int)
        } else {
            0
        }
        &&& self.progress.chunk_count == if self.chunk == 0 || n == 0 {
            0
        } else {
            plan.statement_of(n - 1) % (self.chunk as int) + 1
        }
        &&& self.progress.separator == if n == 0 {
            if self.with_transaction {
                Separator::Statement
            } else {
                Separator::Nothing
            }
        } else if plan.starts_statement(n) {
            Separator::Statement
        } else {
            Separator::Row
        }
    }

    /// An emitter at the start of a run with the given configuration and
    /// column names.
    pub fn new(args: &Arguments, fields: Vec<String>) -> (res: Emitter)
        ensures
            res.plan() == plan_of(args@, texts(fields@)),
            res.rows() == 0,
    {
        let mut header = String::from_str("insert into ");
        header.append(args.table.as_str());
        header.append(" ");
        header.append(format_fields(fields).as_str());
        header.append(" values");
        proof {
            if args.chunk_insert > 0 {
                lemma_fundamental_div_mod_converse(0, args.chunk_insert as int, 0, 0);
            }
        }
        Emitter {
            header,
            chunk: args.chunk,
            chunk_insert: args.chunk_insert,
            with_transaction: args.with_transaction,
            typed: args.typed,
            progress: Progress {
                chunk_count: 0,
                chunk_insert_count: 0,
                separator: if args.with_transaction {
                    Separator::Statement
                } else {
                    Separator::Nothing
                },
                rows: Ghost(0),
            },
        }
    }

    /// The text that stands before the first statement.
    pub fn opening(&self) -> (res: String)
        ensures
            res@ == self.plan().opening(),
    {
        if self.with_transaction {
            String::from_str("begin transaction")
        } else {
            String::new()
        }
    }

    /// The text that stands after the last row.
    pub fn closing(&self) -> (res: String)
        ensures
            res@ == self.plan().closing(),
    {
        if self.with_transaction {
            String::from_str(";\n\ncommit;")
        } else {
            String::from_str(";")
        }
    }

    /// Takes the next record of the stream and gives the text that it adds to
    /// the script.
    ///
    /// A malformed record ends the run: nothing is written for it and the
    /// emitter stays as it was.
    pub fn emit(&mut self, record: &Record) -> (res: Result<String, ConvertError>)
        ensures
            final(self).plan() == old(self).plan(),
            match record@ {
                Some(row) => {
                    &&& res matches Ok(text)
                    &&& text@ == old(self).plan().row_text(old(self).rows() as int, row)
                    &&& final(self).rows() == old(self).rows() + 1
                },
                None => {
                    &&& res matches Err(e)
                    &&& e == ConvertError::InvalidData
                    &&& final(self).rows() == old(self).rows()
                },
            },
    {
        let row = match record {
            Record::Fields(row) => row,
            Record::Malformed => {
                return Err(ConvertError::InvalidData);
            },
        };
        proof {
            use_type_invariant(&*self);
        }
        let ghost n = self.progress.rows@ as int;
        let ghost plan = self.plan();
        proof {
            if self.chunk_insert > 0 {
                lemma_succ_div_mod(n, self.chunk_insert as int);
                if n > 0 {
                    lemma_succ_div_mod(n - 1, self.chunk_insert as int);
                }
            }
            if self.chunk > 0 && n > 0 {
                lemma_succ_div_mod(plan.statement_of(n - 1), self.chunk as int);
            }
        }
        let mut chunk_count = self.progress.chunk_count;
        let mut chunk_insert_count = self.progress.chunk_insert_count;
        let mut separator = self.progress.separator;
        let mut text = String::new();
        if chunk_insert_count == 0 {
            if self.chunk > 0 && chunk_count == self.chunk {
                text.append(";\n\ncommit;\n\nbegin transaction");
                chunk_count = 0;
            }
            text.append(separator.as_str());
            text.append(self.header.as_str());
            separator = Separator::Nothing;
            if self.chunk > 0 {
                chunk_count += 1;
            }
        }
        text.append(separator.as_str());
        text.append("\n");
        text.append(format_values(row, self.typed).as_str());
        if self.chunk_insert > 0 {
            chunk_insert_count += 1;
            separator = Separator::Row;
            if chunk_insert_count == self.chunk_insert {
                chunk_insert_count = 0;
                separator = Separator::Statement;
            }
        } else {
            separator = Separator::Statement;
        }
        proof {
            let c = self.chunk_insert as int;
            let k = self.chunk as int;
            assert(chunk_insert_count == if c > 0 {
                (n + 1) % c
            } else {
                0
            });
            assert(separator == if plan.starts_statement(n + 1) {
                Separator::Statement
            } else {
                Separator::Row
            });
            assert(chunk_count == if k == 0 {
                0
            } else {
                plan.statement_of(n) % k + 1
            });
        }
        self.progress = Progress {
            chunk_count,
            chunk_insert_count,
            separator,
            rows: Ghost((n + 1) as nat),
        };
        Ok(text)
    }
}

} // verus!
