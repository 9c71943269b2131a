//! Finding the unit data in a timing report.
//!
//! The report is a larger document that holds one block of structured data:
//! a list in square brackets, behind the marker `const UNIT_DATA = ` and
//! closed by `];`.

use crate::text::{find_subslice, first_occurrence, occurs_at};
use vstd::prelude::*;
use vstd::slice::{slice_subrange, slice_to_vec};
use vstd::string::*;
use vstd::utf8::{encode_utf8, is_ascii_chars, is_ascii_chars_encode_utf8};

verus! {

/// Why a report holds no unit data.
#[derive(Clone, Copy, Debug, PartialEq, Eq, Structural)]
pub enum ReportError {
    /// The marker that opens the unit data is not in the report.
    MarkerNotFound,
    /// The marker is there, but nothing behind it closes the unit data.
    EndNotFound,
}

impl ReportError {
    /// The error in words.
    pub fn message(&self) -> (s: String)
        ensures
            s@ == match *self {
                ReportError::MarkerNotFound => "UNIT_DATA not found in timing HTML"@,
                ReportError::EndNotFound => "UNIT_DATA end not found"@,
            },
    {
        match self {
            ReportError::MarkerNotFound => String::from_str("UNIT_DATA not found in timing HTML"),
            ReportError::EndNotFound => String::from_str("UNIT_DATA end not found"),
        }
    }
}

/// The bytes of the marker that opens the unit data.
pub open spec fn marker() -> Seq<u8> {
    encode_utf8("const UNIT_DATA = "@)
}

/// The bytes that close the unit data.
pub open spec fn closing() -> Seq<u8> {
    encode_utf8("];"@)
}

/// The first position at or behind `from` where `needle` stands in `hay`.
pub open spec fn first_at(hay: Seq<u8>, needle: Seq<u8>, from: int) -> Option<int> {
    if exists|at: int| first_occurrence(hay, needle, from, at) {
        Some(choose|at: int| first_occurrence(hay, needle, from, at))
    } else {
        None
    }
}

/// The unit data of `report`: what stands between the first marker and the
/// first closing behind it, with the closing bracket and without the
/// semicolon.
pub open spec fn unit_data_block(report: Seq<u8>) -> Result<Seq<u8>, ReportError> {
    match first_at(report, marker(), 0) {
        None => Err(ReportError::MarkerNotFound),
        Some(opened) => {
            let begin = opened + marker().len();
            match first_at(report, closing(), begin) {
                None => Err(ReportError::EndNotFound),
                Some(closed) => Ok(report.subrange(begin, closed + 1)),
            }
        },
    }
}

/// The closing is a square bracket and a semicolon.
pub proof fn lemma_closing_bytes()
    ensures
        closing() == seq![0x5du8, 0x3bu8],
{
    reveal_strlit("];");
    assert(is_ascii_chars("];"@));
    is_ascii_chars_encode_utf8("];"@);
    assert(closing() =~= seq![0x5du8, 0x3bu8]);
}

/// A first occurrence is the only one.
pub proof fn lemma_first_occurrence_unique(
    hay: Seq<u8>,
    needle: Seq<u8>,
    from: int,
    a: int,
    b: int,
)
    requires
        first_occurrence(hay, needle, from, a),
        first_occurrence(hay, needle, from, b),
    ensures
        a == b,
{
}

/// What `find_subslice` finds is `first_at`.
proof fn lemma_found_is_first_at(hay: Seq<u8>, needle: Seq<u8>, from: int, found: Option<int>)
    requires
        match found {
            Some(at) => first_occurrence(hay, needle, from, at),
            None => forall|j: int| from <= j ==> !occurs_at(hay, needle, j),
        },
    ensures
        first_at(hay, needle, from) == found,
{
    match found {
        Some(at) => {
            let chosen = choose|c: int| first_occurrence(hay, needle, from, c);
            lemma_first_occurrence_unique(hay, needle, from, at, chosen);
        },
        None => {},
    }
}

/// Extracts the unit data from a timing report.
///
/// The result is [`unit_data_block`]: the bytes behind the first marker up
/// to and with the bracket of the first `];` that follows. It fails with
/// [`ReportError::MarkerNotFound`] exactly if the report holds no marker,
/// and with [`ReportError::EndNotFound`] exactly if it holds one and no
/// `];` behind the first.
pub fn extract_unit_data(report: &[u8]) -> (r: Result<Vec<u8>, ReportError>)
    ensures
        match r {
            Ok(block) => unit_data_block(report@) == Ok::<Seq<u8>, ReportError>(block@),
            Err(e) => unit_data_block(report@) == Err::<Seq<u8>, ReportError>(e),
        },
{
    let length: usize = report.len();
    let marker_bytes = "const UNIT_DATA = ".as_bytes();
    let closing_bytes = "];".as_bytes();
    let opened = find_subslice(report, marker_bytes, 0);
    proof {
        lemma_found_is_first_at(
            report@,
            marker(),
            0,
            match opened {
                Some(at) => Some(at as int),
                None => None,
            },
        );
    }
    match opened {
        None => Err(ReportError::MarkerNotFound),
        Some(at) => {
            assert(at + marker().len() <= length);
            let begin: usize = at + marker_bytes.len();
            let closed = find_subslice(report, closing_bytes, begin);
            proof {
                lemma_found_is_first_at(
                    report@,
                    closing(),
                    begin as int,
                    match closed {
                        Some(at) => Some(at as int),
                        None => None,
                    },
                );
            }
            match closed {
                None => Err(ReportError::EndNotFound),
                Some(end) => {
                    proof {
                        lemma_closing_bytes();
                        assert(end + closing().len() <= length);
                    }
                    Ok(slice_to_vec(slice_subrange(report, begin, end + 1)))
                },
            }
        },
    }
}

} // verus!
