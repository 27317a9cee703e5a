//! From catalog rows to the answer: the query that the inspector session
//! runs, and the assembly of its rows into lock records.
//!
//! The assembly fails as a whole when one row names a mode that is none of
//! the eight. Otherwise the rows that the request's filters let through
//! become records, ordered by relation name and then by mode name; records
//! that agree in both keep the order in which their rows came.

use vstd::prelude::*;

use crate::error::Fault;
use crate::error::ServerError;
use crate::lock::parsed;
use crate::lock::Lock;
use crate::text::lemma_encoding_injective;
use crate::text::lemma_lex_le_antisymmetric;
use crate::text::lemma_lex_le_reflexive;
use crate::text::lemma_lex_le_total;
use crate::text::lemma_lex_le_transitive;
use crate::text::text_eq;
use crate::text::text_le;
use crate::text::text_order;
use crate::types::records_of;
use crate::types::rows_of;
use crate::types::text_of;
use crate::types::CatalogRow;
use crate::types::LockAnalysisResponse;
use crate::types::LockRecord;
use crate::types::RowText;

verus! {

/// The catalog query. It takes three parameters: the statement's text, the
/// schema filter and the relation filter, the last two null where the
/// request has none. It yields, for every lock held by a session whose
/// current statement is that text, the lock's type, its mode, and the schema
/// and name of the locked relation.
pub const LOCK_QUERY: &'static str = "\
SELECT pl.locktype, pl.mode, pn.nspname, pc.relname
FROM pg_locks pl
JOIN pg_stat_activity psa ON pl.pid = psa.pid
JOIN pg_class pc ON pc.oid = pl.relation
JOIN pg_namespace pn ON pn.oid = pc.relnamespace
WHERE psa.query = $1
AND ($2::TEXT IS NULL OR pn.nspname = $2)
AND ($3::TEXT IS NULL OR pc.relname = $3)
ORDER BY pc.relname, pl.mode
";

/// Whether a name passes a filter: an absent filter excludes nothing, a
/// present one lets through the name that equals it.
pub open spec fn passes(filter: Option<Seq<char>>, name: Seq<char>) -> bool {
    match filter {
        Some(wanted) => wanted == name,
        None => true,
    }
}

/// Whether a row passes both filters of a request.
pub open spec fn selected(
    row: RowText,
    schema: Option<Seq<char>>,
    relation: Option<Seq<char>>,
) -> bool {
    passes(schema, row.schema) && passes(relation, row.relation)
}

/// The record that a row with a recognized mode stands for.
pub open spec fn record_of(row: RowText) -> LockRecord {
    LockRecord {
        locktype: row.locktype,
        mode: parsed(row.mode).unwrap(),
        schema: row.schema,
        relation: row.relation,
    }
}

/// The records of the rows that pass the filters, in the rows' order.
pub open spec fn selection(
    rows: Seq<RowText>,
    schema: Option<Seq<char>>,
    relation: Option<Seq<char>>,
) -> Seq<LockRecord> {
    rows.filter(|row: RowText| selected(row, schema, relation)).map_values(
        |row: RowText| record_of(row),
    )
}

/// Whether record `a` may stand before record `b`: its relation name comes
/// first, or the names are equal and its mode name does not come later.
pub open spec fn precedes(a: LockRecord, b: LockRecord) -> bool {
    if a.relation == b.relation {
        text_order(a.mode.canonical(), b.mode.canonical())
    } else {
        text_order(a.relation, b.relation)
    }
}

/// Whether every record may stand before all that follow it.
pub open spec fn ordered(records: Seq<LockRecord>) -> bool {
    forall|i: int, j: int| 0 <= i < j < records.len() ==> precedes(records[i], records[j])
}

/// Where a record goes into ordered records: behind the last one that may
/// stand before it.
pub open spec fn place(records: Seq<LockRecord>, record: LockRecord) -> int
    decreases records.len(),
{
    if records.len() == 0 {
        0
    } else if precedes(records.last(), record) {
        records.len() as int
    } else {
        place(records.drop_last(), record)
    }
}

/// Records put in order one after the other, each at its place among those
/// before it.
pub open spec fn arranged(records: Seq<LockRecord>) -> Seq<LockRecord>
    decreases records.len(),
{
    if records.len() == 0 {
        records
    } else {
        let before = arranged(records.drop_last());
        before.insert(place(before, records.last()), records.last())
    }
}

/// The mode text of the first row whose mode is none of the eight.
pub open spec fn unknown_mode(rows: Seq<RowText>) -> Option<Seq<char>>
    decreases rows.len(),
{
    if rows.len() == 0 {
        None
    } else {
        match unknown_mode(rows.drop_last()) {
            Some(text) => Some(text),
            None => if parsed(rows.last().mode) is None {
                Some(rows.last().mode)
            } else {
                None
            },
        }
    }
}

/// What the rows of the catalog query amount to under a request's filters.
pub open spec fn assembled(
    rows: Seq<RowText>,
    schema: Option<Seq<char>>,
    relation: Option<Seq<char>>,
) -> Result<Seq<LockRecord>, Fault> {
    match unknown_mode(rows) {
        Some(text) => Err(Fault::LockModeParse(text)),
        None => Ok(arranged(selection(rows, schema, relation))),
    }
}

/// The answer to a request for the lock on one relation: the one record,
/// none where there is none, and a failed inspection where there are more.
pub open spec fn sole(records: Seq<LockRecord>) -> Result<Option<LockRecord>, Fault> {
    if records.len() == 0 {
        Ok(None)
    } else if records.len() == 1 {
        Ok(Some(records[0]))
    } else {
        Err(Fault::Inspection("query returned an unexpected number of rows"@))
    }
}

/// The outcome of a cycle, as mathematical values.
pub open spec fn verdict_of(result: Result<Vec<LockAnalysisResponse>, ServerError>) -> Result<
    Seq<LockRecord>,
    Fault,
> {
    match result {
        Ok(responses) => Ok(records_of(responses@)),
        Err(error) => Err(error@),
    }
}

/// A record may stand before itself.
pub proof fn lemma_precedes_reflexive(a: LockRecord)
    ensures
        precedes(a, a),
{
    lemma_lex_le_reflexive(vstd::utf8::encode_utf8(a.mode.canonical()));
}

/// Of two records, one may stand before the other.
pub proof fn lemma_precedes_total(a: LockRecord, b: LockRecord)
    ensures
        precedes(a, b) || precedes(b, a),
{
    lemma_lex_le_total(
        vstd::utf8::encode_utf8(a.mode.canonical()),
        vstd::utf8::encode_utf8(b.mode.canonical()),
    );
    lemma_lex_le_total(vstd::utf8::encode_utf8(a.relation), vstd::utf8::encode_utf8(b.relation));
}

/// The order of records passes along a chain of three.
pub proof fn lemma_precedes_transitive(a: LockRecord, b: LockRecord, c: LockRecord)
    requires
        precedes(a, b),
        precedes(b, c),
    ensures
        precedes(a, c),
{
    let ra = vstd::utf8::encode_utf8(a.relation);
    let rb = vstd::utf8::encode_utf8(b.relation);
    let rc = vstd::utf8::encode_utf8(c.relation);
    let ma = vstd::utf8::encode_utf8(a.mode.canonical());
    let mb = vstd::utf8::encode_utf8(b.mode.canonical());
    let mc = vstd::utf8::encode_utf8(c.mode.canonical());
    lemma_lex_le_reflexive(rb);
    if a.relation == b.relation && b.relation == c.relation {
        lemma_lex_le_transitive(ma, mb, mc);
    } else if a.relation == c.relation {
        // `b` lies between two equal names, so it has that name too.
        lemma_lex_le_antisymmetric(ra, rb);
        lemma_encoding_injective(a.relation, b.relation);
    } else {
        lemma_lex_le_reflexive(ra);
        lemma_lex_le_reflexive(rc);
        lemma_lex_le_transitive(ra, rb, rc);
    }
}

/// The place of a record lies within the records; the record just before it
/// may stand before the new one, and none from the place on may.
pub proof fn lemma_place(records: Seq<LockRecord>, record: LockRecord)
    ensures
        0 <= place(records, record) <= records.len(),
        place(records, record) > 0 ==> precedes(records[place(records, record) - 1], record),
        forall|k: int|
            place(records, record) <= k < records.len() ==> !precedes(
                #[trigger] records[k],
                record,
            ),
    decreases records.len(),
{
    if records.len() > 0 && !precedes(records.last(), record) {
        let front = records.drop_last();
        lemma_place(front, record);
        assert forall|k: int| place(records, record) <= k < records.len() implies !precedes(
            #[trigger] records[k],
            record,
        ) by {
            if k < front.len() {
                assert(front[k] == records[k]);
            }
        }
    }
}

/// A record put at its place into ordered records leaves them ordered, and
/// adds nothing but itself.
pub proof fn lemma_insert_keeps_order(records: Seq<LockRecord>, record: LockRecord)
    requires
        ordered(records),
    ensures
        ordered(records.insert(place(records, record), record)),
        records.insert(place(records, record), record).to_multiset()
            == records.to_multiset().insert(record),
{
    let at = place(records, record);
    let after = records.insert(at, record);
    lemma_place(records, record);
    vstd::seq_lib::to_multiset_insert(records, at, record);
    assert forall|i: int, j: int| 0 <= i < j < after.len() implies precedes(
        after[i],
        after[j],
    ) by {
        if j == at {
            // `after[i]` is an old record before the place.
            if i < at - 1 {
                lemma_precedes_transitive(records[i], records[at - 1], record);
            }
        } else if i == at {
            // `after[j]` is an old record from the place on.
            assert(after[j] == records[j - 1]);
            lemma_precedes_total(records[j - 1], record);
        } else {
            let oi = if i < at { i } else { i - 1 };
            let oj = if j < at { j } else { j - 1 };
            assert(after[i] == records[oi] && after[j] == records[oj]);
        }
    }
}

/// Arranging puts records in order and keeps each as often as it occurs.
pub proof fn lemma_arranged(records: Seq<LockRecord>)
    ensures
        ordered(arranged(records)),
        arranged(records).to_multiset() == records.to_multiset(),
        arranged(records).len() == records.len(),
    decreases records.len(),
{
    broadcast use vstd::seq_lib::group_to_multiset_ensures;

    if records.len() > 0 {
        let before = arranged(records.drop_last());
        lemma_arranged(records.drop_last());
        lemma_insert_keeps_order(before, records.last());
        lemma_place(before, records.last());
        assert(records.drop_last().push(records.last()) =~= records);
    }
}

/// Records that are in order already are arranged as they stand.
pub proof fn lemma_arranged_of_ordered(records: Seq<LockRecord>)
    requires
        ordered(records),
    ensures
        arranged(records) == records,
    decreases records.len(),
{
    if records.len() > 0 {
        let front = records.drop_last();
        lemma_arranged_of_ordered(front);
        if front.len() > 0 {
            assert(front.last() == records[front.len() - 1]);
            assert(precedes(front.last(), records.last()));
        }
        assert(front.insert(front.len() as int, records.last()) =~= records);
    }
}

/// Whether two records are of one relation and one mode.
pub open spec fn same_key(a: LockRecord, b: LockRecord) -> bool {
    a.relation == b.relation && a.mode == b.mode
}

/// The records that are of the relation and the mode of `key`, in order.
pub open spec fn of_key(records: Seq<LockRecord>, key: LockRecord) -> Seq<LockRecord> {
    records.filter(|record: LockRecord| same_key(record, key))
}

/// Records of which none is of the key hold none of that key.
proof fn lemma_none_of_key(records: Seq<LockRecord>, key: LockRecord)
    requires
        forall|i: int| 0 <= i < records.len() ==> !same_key(#[trigger] records[i], key),
    ensures
        of_key(records, key) == Seq::<LockRecord>::empty(),
    decreases records.len(),
{
    reveal(Seq::filter);
    if records.len() > 0 {
        let front = records.drop_last();
        assert forall|i: int| 0 <= i < front.len() implies !same_key(#[trigger] front[i], key) by {
            assert(front[i] == records[i]);
        }
        lemma_none_of_key(front, key);
    }
}

/// Arranging is stable: the records of one relation and one mode stand in
/// the arranged records in the order in which they came.
pub proof fn lemma_arranged_stable(records: Seq<LockRecord>, key: LockRecord)
    ensures
        of_key(arranged(records), key) == of_key(records, key),
    decreases records.len(),
{
    let keep = |record: LockRecord| same_key(record, key);
    if records.len() > 0 {
        let front = records.drop_last();
        let last = records.last();
        let before = arranged(front);
        let at = place(before, last);
        lemma_arranged_stable(front, key);
        lemma_arranged(front);
        lemma_place(before, last);
        let head = before.subrange(0, at);
        let tail = before.subrange(at, before.len() as int);
        assert(before =~= head + tail);
        assert(before.insert(at, last) =~= head.push(last) + tail);
        Seq::filter_distributes_over_add(head, tail, keep);
        Seq::filter_distributes_over_add(head.push(last), tail, keep);
        assert(head.push(last).filter(keep) == if same_key(last, key) {
            head.filter(keep).push(last)
        } else {
            head.filter(keep)
        }) by {
            reveal(Seq::filter);
            assert(head.push(last).drop_last() =~= head);
        }
        assert(records.filter(keep) == if same_key(last, key) {
            front.filter(keep).push(last)
        } else {
            front.filter(keep)
        }) by {
            reveal(Seq::filter);
        }
        if same_key(last, key) {
            assert forall|i: int| 0 <= i < tail.len() implies !same_key(
                #[trigger] tail[i],
                key,
            ) by {
                assert(tail[i] == before[at + i]);
                if same_key(tail[i], key) {
                    lemma_precedes_reflexive(last);
                    assert(precedes(before[at + i], last));
                }
            }
            lemma_none_of_key(tail, key);
            assert(head.filter(keep) + Seq::<LockRecord>::empty() =~= head.filter(keep));
            assert(head.filter(keep).push(last) + Seq::<LockRecord>::empty()
                =~= head.filter(keep).push(last));
        }
    }
}

/// Every row has a recognized mode exactly when none is reported unknown.
pub proof fn lemma_unknown_mode(rows: Seq<RowText>)
    ensures
        unknown_mode(rows) is None <==> forall|i: int|
            0 <= i < rows.len() ==> parsed(#[trigger] rows[i].mode) is Some,
        unknown_mode(rows) matches Some(text) ==> parsed(text) is None,
    decreases rows.len(),
{
    if rows.len() > 0 {
        lemma_unknown_mode(rows.drop_last());
        if unknown_mode(rows) is None {
            assert forall|i: int| 0 <= i < rows.len() implies parsed(
                #[trigger] rows[i].mode,
            ) is Some by {
                if i < rows.len() - 1 {
                    assert(rows.drop_last()[i] == rows[i]);
                }
            }
        } else if unknown_mode(rows.drop_last()) is Some {
            let i = choose|i: int|
                0 <= i < rows.drop_last().len() && !(parsed(
                    #[trigger] rows.drop_last()[i].mode,
                ) is Some);
            assert(rows[i] == rows.drop_last()[i]);
        }
    }
}

/// An unknown mode found among the first rows is the one reported for all.
proof fn lemma_unknown_mode_prefix(rows: Seq<RowText>, n: int)
    requires
        0 <= n <= rows.len(),
        unknown_mode(rows.take(n)) is Some,
    ensures
        unknown_mode(rows) == unknown_mode(rows.take(n)),
    decreases rows.len() - n,
{
    if n < rows.len() {
        assert(rows.take(n + 1).drop_last() =~= rows.take(n));
        lemma_unknown_mode_prefix(rows, n + 1);
    } else {
        assert(rows.take(n) =~= rows);
    }
}

/// The selection of rows with one more row at their end.
proof fn lemma_selection_push(
    rows: Seq<RowText>,
    row: RowText,
    schema: Option<Seq<char>>,
    relation: Option<Seq<char>>,
)
    ensures
        selection(rows.push(row), schema, relation) == if selected(row, schema, relation) {
            selection(rows, schema, relation).push(record_of(row))
        } else {
            selection(rows, schema, relation)
        },
{
    reveal(Seq::filter);
    let keep = |row: RowText| selected(row, schema, relation);
    assert(rows.push(row).drop_last() =~= rows);
    if selected(row, schema, relation) {
        assert(rows.push(row).filter(keep) == rows.filter(keep).push(row));
        assert(selection(rows.push(row), schema, relation) =~= selection(
            rows,
            schema,
            relation,
        ).push(record_of(row)));
    }
}

/// The records of responses with one more put among them.
proof fn lemma_records_insert(
    responses: Seq<LockAnalysisResponse>,
    at: int,
    response: LockAnalysisResponse,
)
    requires
        0 <= at <= responses.len(),
    ensures
        records_of(responses.insert(at, response)) == records_of(responses).insert(
            at,
            response@,
        ),
{
    assert(records_of(responses.insert(at, response)) =~= records_of(responses).insert(
        at,
        response@,
    ));
}

/// Rows of which none passes the filters amount to an empty answer, not to
/// a failure: so it is where a filter names a relation or a schema that the
/// statement does not touch.
pub proof fn lemma_nothing_selected(
    rows: Seq<RowText>,
    schema: Option<Seq<char>>,
    relation: Option<Seq<char>>,
)
    requires
        unknown_mode(rows) is None,
        forall|i: int| 0 <= i < rows.len() ==> !selected(#[trigger] rows[i], schema, relation),
    ensures
        assembled(rows, schema, relation) == Ok::<Seq<LockRecord>, Fault>(Seq::empty()),
    decreases rows.len(),
{
    if rows.len() == 0 {
        reveal(Seq::filter);
        assert(selection(rows, schema, relation) =~= Seq::empty());
    } else {
        let front = rows.drop_last();
        assert forall|i: int| 0 <= i < front.len() implies !selected(
            #[trigger] front[i],
            schema,
            relation,
        ) by {
            assert(front[i] == rows[i]);
        }
        lemma_nothing_selected(front, schema, relation);
        lemma_selection_push(front, rows.last(), schema, relation);
        assert(front.push(rows.last()) =~= rows);
    }
}

/// Whether a name passes a filter.
fn passes_filter(filter: &Option<String>, name: &str) -> (r: bool)
    ensures
        r == passes(text_of(*filter), name@),
{
    match filter {
        Some(wanted) => text_eq(wanted.as_str(), name),
        None => true,
    }
}

/// Whether record `a` may stand before record `b`.
fn stands_before(a: &LockAnalysisResponse, b: &LockAnalysisResponse) -> (r: bool)
    ensures
        r == precedes(a@, b@),
{
    if text_eq(a.relation.as_str(), b.relation.as_str()) {
        text_le(a.mode.name(), b.mode.name())
    } else {
        text_le(a.relation.as_str(), b.relation.as_str())
    }
}

/// Puts a record at its place among the records.
fn insert_record(records: &mut Vec<LockAnalysisResponse>, record: LockAnalysisResponse)
    ensures
        records_of(final(records)@) == records_of(old(records)@).insert(
            place(records_of(old(records)@), record@),
            record@,
        ),
{
    let ghost before = records_of(records@);
    let ghost target = record@;
    let mut at: usize = records.len();
    assert(before.take(at as int) =~= before);
    while at > 0
        invariant
            at <= records.len(),
            records.len() == before.len(),
            forall|k: int| 0 <= k < records.len() ==> (#[trigger] records@[k])@ == before[k],
            target == record@,
            place(before, target) == place(before.take(at as int), target),
        ensures
            place(before, target) == at,
        decreases at,
    {
        let ghost head = before.take(at as int);
        assert(head.last() == before[at - 1]);
        assert(head.drop_last() =~= before.take(at - 1));
        if stands_before(&records[at - 1], &record) {
            assert(place(head, target) == at);
            break;
        }
        at -= 1;
    }
    proof {
        lemma_records_insert(records@, at as int, record);
        assert(records_of(records@) =~= before);
    }
    records.insert(at, record);
}

/// Turns the rows of the catalog query into the answer to a request.
///
/// Fails with the mode text of the first row whose mode is none of the
/// eight. Otherwise gives the records of the rows that pass the filters, in
/// order of relation name and mode name: each record once for each of its
/// rows, those of one relation and mode in the order of their rows, and so
/// all as they came where the query has put them in order already.
pub fn assemble(
    rows: &Vec<CatalogRow>,
    schema: &Option<String>,
    relation: &Option<String>,
) -> (result: Result<Vec<LockAnalysisResponse>, ServerError>)
    ensures
        verdict_of(result) == assembled(rows_of(rows@), text_of(*schema), text_of(*relation)),
        result matches Ok(responses) ==> {
            let chosen = selection(rows_of(rows@), text_of(*schema), text_of(*relation));
            &&& ordered(records_of(responses@))
            &&& records_of(responses@).to_multiset() == chosen.to_multiset()
            &&& forall|key: LockRecord| #[trigger]
                of_key(records_of(responses@), key) == of_key(chosen, key)
            &&& ordered(chosen) ==> records_of(responses@) == chosen
        },
        result is Ok <==> forall|i: int|
            0 <= i < rows.len() ==> parsed(#[trigger] rows[i].mode@) is Some,
{
    let ghost texts = rows_of(rows@);
    let ghost schema_text = text_of(*schema);
    let ghost relation_text = text_of(*relation);
    let mut responses: Vec<LockAnalysisResponse> = Vec::new();
    let mut i: usize = 0;
    proof {
        reveal(Seq::filter);
        assert(selection(texts.take(0), schema_text, relation_text) =~= Seq::empty());
        assert(records_of(responses@) =~= Seq::empty());
        lemma_unknown_mode(texts);
    }
    while i < rows.len()
        invariant
            i <= rows.len(),
            texts == rows_of(rows@),
            schema_text == text_of(*schema),
            relation_text == text_of(*relation),
            unknown_mode(texts.take(i as int)) is None,
            records_of(responses@) == arranged(
                selection(texts.take(i as int), schema_text, relation_text),
            ),
        decreases rows.len() - i,
    {
        let row = &rows[i];
        proof {
            assert(texts.take(i + 1) =~= texts.take(i as int).push(row@));
            assert(texts.take(i + 1).drop_last() =~= texts.take(i as int));
            lemma_selection_push(texts.take(i as int), row@, schema_text, relation_text);
        }
        match Lock::from_str(row.mode.as_str()) {
            Err(unknown) => {
                proof {
                    lemma_unknown_mode_prefix(texts, i + 1);
                    assert(parsed(rows[i as int].mode@) is None);
                }
                return Err(ServerError::LockModeParse(unknown.text));
            },
            Ok(mode) => {
                if passes_filter(schema, row.schema.as_str()) && passes_filter(
                    relation,
                    row.relation.as_str(),
                ) {
                    let response = LockAnalysisResponse {
                        locktype: row.locktype.clone(),
                        mode,
                        schema: row.schema.clone(),
                        relation: row.relation.clone(),
                    };
                    proof {
                        let chosen = selection(texts.take(i as int), schema_text, relation_text);
                        assert(response@ == record_of(row@));
                        assert(chosen.push(response@).drop_last() =~= chosen);
                    }
                    insert_record(&mut responses, response);
                }
            },
        }
        i += 1;
    }
    proof {
        assert(texts.take(rows.len() as int) =~= texts);
        let chosen = selection(texts, schema_text, relation_text);
        lemma_arranged(chosen);
        if ordered(chosen) {
            lemma_arranged_of_ordered(chosen);
        }
        assert forall|key: LockRecord| #[trigger]
            of_key(arranged(chosen), key) == of_key(chosen, key) by {
            lemma_arranged_stable(chosen, key);
        }
        lemma_unknown_mode(texts);
        assert forall|k: int| 0 <= k < rows.len() implies parsed(
            #[trigger] rows[k].mode@,
        ) is Some by {
            assert(texts[k].mode == rows[k].mode@);
        }
    }
    Ok(responses)
}

/// The one record of an answer that should hold no more than one.
pub fn at_most_one(responses: Vec<LockAnalysisResponse>) -> (result: Result<
    Option<LockAnalysisResponse>,
    ServerError,
>)
    ensures
        match result {
            Ok(Some(response)) => sole(records_of(responses@)) == Ok::<Option<LockRecord>, Fault>(
                Some(response@),
            ),
            Ok(None) => sole(records_of(responses@)) == Ok::<Option<LockRecord>, Fault>(None),
            Err(error) => sole(records_of(responses@)) == Err::<Option<LockRecord>, Fault>(
                error@,
            ),
        },
{
    let mut responses = responses;
    if responses.len() > 1 {
        return Err(
            ServerError::Inspection("query returned an unexpected number of rows".to_owned()),
        );
    }
    let ghost before = responses@;
    match responses.pop() {
        Some(response) => {
            assert(before.len() == 1 && before[0] == response);
            Ok(Some(response))
        },
        None => Ok(None),
    }
}

} // verus!
