//! The values that cross the library's boundary: the request for an
//! analysis, one row of the lock catalog as the inspector session returns
//! it, and one lock record of the answer.

use vstd::prelude::*;

use crate::lock::Lock;

verus! {

/// What is to be analysed: a statement, and optionally the one relation or
/// the one schema that the answer is restricted to.
#[derive(Clone, Debug, PartialEq, Eq)]
pub struct LockAnalysisRequest {
    /// The statement, executed as it stands: no parameter is bound.
    pub query: String,
    /// Only locks on the relation of this name, if given.
    pub relation: Option<String>,
    /// Only locks on relations in the schema of this name, if given.
    pub schema: Option<String>,
}

/// One lock that the statement takes.
#[derive(Clone, Debug, PartialEq, Eq)]
pub struct LockAnalysisResponse {
    /// The kind of object locked, as the catalog names it.
    pub locktype: String,
    /// The strength of the lock.
    pub mode: Lock,
    /// The schema of the locked relation.
    pub schema: String,
    /// The name of the locked relation.
    pub relation: String,
}

/// One row of the lock catalog, as text.
#[derive(Clone, Debug, PartialEq, Eq)]
pub struct CatalogRow {
    /// The kind of object locked.
    pub locktype: String,
    /// The name of the lock mode, as the catalog spells it.
    pub mode: String,
    /// The schema of the locked relation.
    pub schema: String,
    /// The name of the locked relation.
    pub relation: String,
}

/// A request, as mathematical values.
pub struct RequestView {
    pub query: Seq<char>,
    pub relation: Option<Seq<char>>,
    pub schema: Option<Seq<char>>,
}

/// A lock record, as mathematical values.
pub struct LockRecord {
    pub locktype: Seq<char>,
    pub mode: Lock,
    pub schema: Seq<char>,
    pub relation: Seq<char>,
}

/// A catalog row, as mathematical values.
pub struct RowText {
    pub locktype: Seq<char>,
    pub mode: Seq<char>,
    pub schema: Seq<char>,
    pub relation: Seq<char>,
}

/// The characters of an optional text.
pub open spec fn text_of(value: Option<String>) -> Option<Seq<char>> {
    match value {
        Some(text) => Some(text@),
        None => None,
    }
}

/// The records of a sequence of responses.
pub open spec fn records_of(responses: Seq<LockAnalysisResponse>) -> Seq<LockRecord> {
    responses.map_values(|r: LockAnalysisResponse| r@)
}

/// The texts of a sequence of catalog rows.
pub open spec fn rows_of(rows: Seq<CatalogRow>) -> Seq<RowText> {
    rows.map_values(|r: CatalogRow| r@)
}

impl View for LockAnalysisRequest {
    type V = RequestView;

    open spec fn view(&self) -> RequestView {
        RequestView {
            query: self.query@,
            relation: text_of(self.relation),
            schema: text_of(self.schema),
        }
    }
}

impl View for LockAnalysisResponse {
    type V = LockRecord;

    open spec fn view(&self) -> LockRecord {
        LockRecord {
            locktype: self.locktype@,
            mode: self.mode,
            schema: self.schema@,
            relation: self.relation@,
        }
    }
}

impl View for CatalogRow {
    type V = RowText;

    open spec fn view(&self) -> RowText {
        RowText {
            locktype: self.locktype@,
            mode: self.mode@,
            schema: self.schema@,
            relation: self.relation@,
        }
    }
}

impl LockAnalysisRequest {
    /// A request for the locks that `query` takes on the relation named
    /// `relation`, in whatever schema.
    pub fn new(query: &str, relation: &str) -> (request: Self)
        ensures
            request@ == (RequestView {
                query: query@,
                relation: Some(relation@),
                schema: None,
            }),
    {
        LockAnalysisRequest {
            query: query.to_owned(),
            relation: Some(relation.to_owned()),
            schema: None,
        }
    }
}

} // verus!
