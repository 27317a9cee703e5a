//! The client's side: where the query comes from, where the request goes,
//! and what is shown of the answer.

use vstd::prelude::*;
use vstd::string::StrSliceExecFns;
use vstd::string::StringExecFns;

use crate::types::text_of;
use crate::types::LockAnalysisRequest;
use crate::types::LockAnalysisResponse;
use crate::types::LockRecord;
use crate::types::RequestView;

verus! {

broadcast use vstd::string::group_string_axioms;

/// The port on which the analysis server listens unless told otherwise.
pub const DEFAULT_SERVER_PORT: u16 = 5430;

/// What the client was asked to do.
#[derive(Clone, Debug, PartialEq, Eq)]
pub struct Args {
    /// The query to analyse.
    pub query: String,
    /// Only locks on the relation of this name, if given.
    pub relation: Option<String>,
    /// Only locks on relations in the schema of this name, if given.
    pub schema: Option<String>,
    /// The port of the analysis server, if not the default.
    pub server_port: Option<u16>,
}

/// Where the text of a query is to be taken from.
#[derive(Clone, Debug, PartialEq, Eq)]
pub enum QueryInput {
    /// From the file at this path.
    File { path: String },
    /// From the argument itself.
    Text { query: String },
}

/// Where a query is to be taken from, as mathematical values.
pub enum QueryInputView {
    File { path: Seq<char> },
    Text { query: Seq<char> },
}

impl View for QueryInput {
    type V = QueryInputView;

    open spec fn view(&self) -> QueryInputView {
        match self {
            QueryInput::File { path } => QueryInputView::File { path: path@ },
            QueryInput::Text { query } => QueryInputView::Text { query: query@ },
        }
    }
}

/// An argument that begins with `@` names a file, by what follows the `@`;
/// any other argument is the query itself.
pub open spec fn query_input_of(value: Seq<char>) -> QueryInputView {
    if value.len() > 0 && value[0] == '@' {
        QueryInputView::File { path: value.skip(1) }
    } else {
        QueryInputView::Text { query: value }
    }
}

/// The character for a digit from 0 to 9.
pub open spec fn digit(d: nat) -> char {
    ((48 + d) as u8) as char
}

/// A number in decimal, without sign or leading zeros.
pub open spec fn decimal(n: nat) -> Seq<char>
    decreases n,
{
    if n < 10 {
        seq![digit(n)]
    } else {
        decimal(n / 10).push(digit(n % 10))
    }
}

/// The address of the analysis endpoint of a server on the local host.
pub open spec fn endpoint_of(port: nat) -> Seq<char> {
    "http://localhost:"@ + decimal(port) + "/locks"@
}

/// The message for a request that the server answered with an error status.
pub open spec fn rejection_of(code: nat, body: Seq<char>) -> Seq<char> {
    "Invalid request (response code "@ + decimal(code) + "): "@ + body
}

/// The line that tells of one lock.
pub open spec fn description_of(record: LockRecord) -> Seq<char> {
    "Lock of type '"@ + record.locktype + "' with mode '"@ + record.mode.canonical()
        + "' will be taken on relation '"@ + record.schema + "."@ + record.relation + "'"@
}

/// The line shown when the answer holds no lock.
pub open spec fn no_locks() -> Seq<char> {
    "No locks were returned for this query"@
}

/// The lines shown for an answer: one for each lock, or the one that says
/// there is none.
pub open spec fn report_of(records: Seq<LockRecord>) -> Seq<Seq<char>> {
    if records.len() == 0 {
        seq![no_locks()]
    } else {
        records.map_values(|record: LockRecord| description_of(record))
    }
}

/// Where the text of a query is to be taken from.
pub fn query_input(value: &str) -> (input: QueryInput)
    ensures
        input@ == query_input_of(value@),
{
    let length = value.unicode_len();
    if length > 0 && value.get_char(0) == '@' {
        let path = value.substring_char(1, length);
        assert(value@.skip(1) =~= value@.subrange(1, length as int));
        QueryInput::File { path: path.to_owned() }
    } else {
        QueryInput::Text { query: value.to_owned() }
    }
}

/// The text of one digit.
fn digit_text(d: u16) -> (text: &'static str)
    requires
        d < 10,
    ensures
        text@ == seq![digit(d as nat)],
{
    proof {
        reveal_strlit("0");
        reveal_strlit("1");
        reveal_strlit("2");
        reveal_strlit("3");
        reveal_strlit("4");
        reveal_strlit("5");
        reveal_strlit("6");
        reveal_strlit("7");
        reveal_strlit("8");
        reveal_strlit("9");
    }
    let text = if d == 0 {
        "0"
    } else if d == 1 {
        "1"
    } else if d == 2 {
        "2"
    } else if d == 3 {
        "3"
    } else if d == 4 {
        "4"
    } else if d == 5 {
        "5"
    } else if d == 6 {
        "6"
    } else if d == 7 {
        "7"
    } else if d == 8 {
        "8"
    } else {
        "9"
    };
    assert(text@ =~= seq![digit(d as nat)]);
    text
}

/// A number in decimal.
pub fn decimal_text(n: u16) -> (text: String)
    ensures
        text@ == decimal(n as nat),
    decreases n,
{
    if n < 10 {
        digit_text(n).to_owned()
    } else {
        let mut text = decimal_text(n / 10);
        text.append(digit_text(n % 10));
        assert(text@ =~= decimal(n as nat / 10).push(digit(n as nat % 10)));
        text
    }
}

/// The address of the analysis endpoint of the server on the local host
/// that listens on `port`, or on the default port where none is given.
pub fn endpoint(port: Option<u16>) -> (address: String)
    ensures
        address@ == endpoint_of(
            match port {
                Some(p) => p as nat,
                None => DEFAULT_SERVER_PORT as nat,
            },
        ),
{
    let port = match port {
        Some(p) => p,
        None => DEFAULT_SERVER_PORT,
    };
    let mut address = "http://localhost:".to_owned();
    address.append(decimal_text(port).as_str());
    address.append("/locks");
    address
}

/// The message for a request that the server answered with an error status
/// and this body.
pub fn rejection(code: u16, body: &str) -> (message: String)
    ensures
        message@ == rejection_of(code as nat, body@),
{
    let mut message = "Invalid request (response code ".to_owned();
    message.append(decimal_text(code).as_str());
    message.append("): ");
    message.append(body);
    message
}

/// The line that tells of one lock.
pub fn display_analysis(analysis: &LockAnalysisResponse) -> (line: String)
    ensures
        line@ == description_of(analysis@),
{
    let mut line = "Lock of type '".to_owned();
    line.append(analysis.locktype.as_str());
    line.append("' with mode '");
    line.append(analysis.mode.name());
    line.append("' will be taken on relation '");
    line.append(analysis.schema.as_str());
    line.append(".");
    line.append(analysis.relation.as_str());
    line.append("'");
    line
}

/// The lines shown for an answer.
pub fn report(response: &Vec<LockAnalysisResponse>) -> (lines: Vec<String>)
    ensures
        lines@.map_values(|line: String| line@) == report_of(crate::types::records_of(response@)),
{
    let mut lines: Vec<String> = Vec::new();
    if response.len() == 0 {
        lines.push("No locks were returned for this query".to_owned());
        assert(lines@.map_values(|line: String| line@) =~= seq![no_locks()]);
        return lines;
    }
    let mut i: usize = 0;
    while i < response.len()
        invariant
            i <= response.len(),
            lines.len() == i,
            forall|k: int| 0 <= k < i ==> (#[trigger] lines@[k])@ == description_of(response@[k]@),
        decreases response.len() - i,
    {
        lines.push(display_analysis(&response[i]));
        i += 1;
    }
    assert(lines@.map_values(|line: String| line@) =~= report_of(
        crate::types::records_of(response@),
    ));
    lines
}

impl Args {
    /// The request that these arguments ask for.
    pub fn request(&self) -> (request: LockAnalysisRequest)
        ensures
            request@ == (RequestView {
                query: self.query@,
                relation: text_of(self.relation),
                schema: text_of(self.schema),
            }),
    {
        LockAnalysisRequest {
            query: self.query.clone(),
            relation: match &self.relation {
                Some(name) => Some(name.clone()),
                None => None,
            },
            schema: match &self.schema {
                Some(name) => Some(name.clone()),
                None => None,
            },
        }
    }

    /// The address that the request is sent to.
    pub fn endpoint(&self) -> (address: String)
        ensures
            address@ == endpoint_of(
                match self.server_port {
                    Some(p) => p as nat,
                    None => DEFAULT_SERVER_PORT as nat,
                },
            ),
    {
        endpoint(self.server_port)
    }
}

} // verus!
