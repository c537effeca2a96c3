//! Finding a column of a table from what an expression says of it: its
//! name, its name and which of the columns of that name, or its position.

use crate::parser::{shapes, Argument, Ast};
use crate::record::{bytes_equal, record_fields};
use vstd::prelude::*;
use vstd::utf8::encode_utf8;

verus! {

/// A way to point at one column of a header row.
#[derive(Debug, PartialEq)]
pub enum ColumIndexationBy {
    /// The first column of this name.
    Name(String),
    /// Among the columns of this name, the one at this rank, counted from zero.
    NameAndNth((String, usize)),
    /// The column at this position, counted from zero.
    Pos(usize),
}

/// A column selector as plain values.
pub enum Selector {
    Name(Seq<char>),
    NameAndNth(Seq<char>, nat),
    Pos(nat),
}

impl View for ColumIndexationBy {
    type V = Selector;

    open spec fn view(&self) -> Selector {
        match self {
            ColumIndexationBy::Name(name) => Selector::Name(name@),
            ColumIndexationBy::NameAndNth((name, nth)) => Selector::NameAndNth(name@, *nth as nat),
            ColumIndexationBy::Pos(pos) => Selector::Pos(*pos as nat),
        }
    }
}

impl Clone for ColumIndexationBy {
    fn clone(&self) -> (r: ColumIndexationBy)
        ensures
            r@ == self@,
    {
        match self {
            ColumIndexationBy::Name(name) => ColumIndexationBy::Name(name.clone()),
            ColumIndexationBy::NameAndNth((name, nth)) => ColumIndexationBy::NameAndNth(
                (name.clone(), *nth),
            ),
            ColumIndexationBy::Pos(pos) => ColumIndexationBy::Pos(*pos),
        }
    }
}

/// How many of the first `upto` cells of `header` hold exactly `name`.
pub open spec fn occurrences(header: Seq<Seq<u8>>, name: Seq<u8>, upto: int) -> nat
    decreases upto,
{
    if upto <= 0 {
        0
    } else {
        occurrences(header, name, upto - 1) + if header[upto - 1] == name {
            1nat
        } else {
            0nat
        }
    }
}

/// Whether the cell at `offset` holds `name` and exactly `nth` cells before
/// it do.
pub open spec fn is_nth_occurrence(
    header: Seq<Seq<u8>>,
    name: Seq<u8>,
    nth: nat,
    offset: int,
) -> bool {
    0 <= offset < header.len() && header[offset] == name && occurrences(header, name, offset)
        == nth
}

impl Selector {
    /// Whether `offset` is the column of `header` that this selector points at.
    pub open spec fn points_at(self, header: Seq<Seq<u8>>, offset: int) -> bool {
        match self {
            Selector::Name(name) => is_nth_occurrence(header, encode_utf8(name), 0, offset),
            Selector::NameAndNth(name, nth) => is_nth_occurrence(
                header,
                encode_utf8(name),
                nth,
                offset,
            ),
            Selector::Pos(pos) => offset == pos && pos < header.len(),
        }
    }

    /// Whether this selector points at a column of `header`.
    pub open spec fn resolves(self, header: Seq<Seq<u8>>) -> bool {
        exists|offset: int| self.points_at(header, offset)
    }

    /// The selector that the operands of a call spell out, if they spell one:
    /// a name, a name and a rank, or a position.
    pub open spec fn from_arguments(arguments: Seq<Ast>) -> Option<Selector> {
        if arguments.len() == 1 {
            match arguments[0] {
                Ast::StringLiteral(name) => Some(Selector::Name(name)),
                Ast::FloatLiteral(_) | Ast::IntegerLiteral(_) => match arguments[0].index_value() {
                    Some(pos) => Some(Selector::Pos(pos)),
                    None => None,
                },
                _ => None,
            }
        } else if arguments.len() == 2 {
            match arguments[0] {
                Ast::StringLiteral(name) => match arguments[1].index_value() {
                    Some(nth) => Some(Selector::NameAndNth(name, nth)),
                    None => None,
                },
                _ => None,
            }
        } else {
            None
        }
    }
}

/// Counting further never counts fewer.
pub proof fn lemma_occurrences_grow(header: Seq<Seq<u8>>, name: Seq<u8>, i: int, j: int)
    requires
        i <= j,
    ensures
        occurrences(header, name, i) <= occurrences(header, name, j),
    decreases j - i,
{
    if i < j {
        lemma_occurrences_grow(header, name, i, j - 1);
    }
}

/// A selector points at one column at most.
pub proof fn lemma_points_at_one(selector: Selector, header: Seq<Seq<u8>>, a: int, b: int)
    requires
        selector.points_at(header, a),
        selector.points_at(header, b),
    ensures
        a == b,
{
    match selector {
        Selector::Pos(_) => {},
        Selector::Name(name) => {
            lemma_nth_occurrence_is_one(header, encode_utf8(name), 0, a, b);
        },
        Selector::NameAndNth(name, nth) => {
            lemma_nth_occurrence_is_one(header, encode_utf8(name), nth, a, b);
        },
    }
}

proof fn lemma_nth_occurrence_is_one(header: Seq<Seq<u8>>, name: Seq<u8>, nth: nat, a: int, b: int)
    requires
        is_nth_occurrence(header, name, nth, a),
        is_nth_occurrence(header, name, nth, b),
    ensures
        a == b,
{
    if a < b {
        lemma_occurrences_grow(header, name, a + 1, b);
    } else if b < a {
        lemma_occurrences_grow(header, name, b + 1, a);
    }
}

impl ColumIndexationBy {
    /// Reads the operands of a call as a column selector: one string is a
    /// name, one number a position, a string and a number a name and a rank.
    /// Anything else is no selector.
    pub fn from_arguments(arguments: &Vec<Argument>) -> (r: Option<Self>)
        ensures
            match r {
                Some(selector) => Selector::from_arguments(shapes(arguments@)) == Some(selector@),
                None => Selector::from_arguments(shapes(arguments@)) is None,
            },
    {
        if arguments.len() == 1 {
            let first_arg = &arguments[0];
            match first_arg {
                Argument::StringLiteral(column_name) => Some(Self::Name(column_name.clone())),
                Argument::FloatLiteral(_) | Argument::IntegerLiteral(_) => {
                    match first_arg.try_to_usize() {
                        Some(pos) => Some(Self::Pos(pos)),
                        None => None,
                    }
                },
                _ => None,
            }
        } else if arguments.len() == 2 {
            match &arguments[0] {
                Argument::StringLiteral(column_name) => {
                    match arguments[1].try_to_usize() {
                        None => None,
                        Some(column_index) => Some(
                            Self::NameAndNth((column_name.clone(), column_index)),
                        ),
                    }
                },
                _ => None,
            }
        } else {
            None
        }
    }

    /// The offset in `headers` of the column that this selector points at,
    /// and `None` where it points at none.
    pub fn find_column_index(&self, headers: &csv::ByteRecord) -> (r: Option<usize>)
        ensures
            match r {
                Some(offset) => self@.points_at(record_fields(*headers), offset as int),
                None => !self@.resolves(record_fields(*headers)),
            },
    {
        let ghost header = record_fields(*headers);
        match self {
            Self::Pos(i) => {
                if *i >= headers.len() {
                    None
                } else {
                    Some(*i)
                }
            },
            Self::Name(name) => find_nth(headers, name.as_str(), 0),
            Self::NameAndNth((name, pos)) => find_nth(headers, name.as_str(), *pos),
        }
    }
}

/// The offset of the cell of `headers` that holds `name` after exactly `nth`
/// others that hold it.
fn find_nth(headers: &csv::ByteRecord, name: &str, nth: usize) -> (r: Option<usize>)
    ensures
        match r {
            Some(offset) => is_nth_occurrence(
                record_fields(*headers),
                encode_utf8(name@),
                nth as nat,
                offset as int,
            ),
            None => forall|offset: int|
                !is_nth_occurrence(
                    record_fields(*headers),
                    encode_utf8(name@),
                    nth as nat,
                    offset,
                ),
        },
{
    let ghost header = record_fields(*headers);
    let name_bytes = name.as_bytes();
    let n = headers.len();
    let mut c: usize = nth;
    let mut i: usize = 0;
    while i < n
        invariant
            i <= n,
            n == header.len(),
            header == record_fields(*headers),
            name_bytes@ == encode_utf8(name@),
            c + occurrences(header, name_bytes@, i as int) == nth,
        decreases n - i,
    {
        match headers.get(i) {
            None => {
                return None;
            },
            Some(cell) => {
                if bytes_equal(cell, name_bytes) {
                    if c == 0 {
                        return Some(i);
                    }
                    c = c - 1;
                }
            },
        }
        i = i + 1;
    }
    assert forall|offset: int| !is_nth_occurrence(header, name_bytes@, nth as nat, offset) by {
        if 0 <= offset < header.len() && header[offset] == name_bytes@ {
            lemma_occurrences_grow(header, name_bytes@, offset + 1, n as int);
        }
    }
    None
}

} // verus!
