//! Labelling: each record gets the designator of its nearest reference
//! point as one more field.

use vstd::prelude::*;
use crate::dataset::{PrimaryTable, ReferencePoint};
use crate::error::LabelError;
use crate::distance::is_nan;
use crate::matcher::{first_minimum, has_nan, nearest_index};
use crate::table::uniform;

verus! {

/// The designators of the reference points, in their order.
pub open spec fn designators(reference: Seq<ReferencePoint>) -> Seq<Seq<char>> {
    Seq::new(reference.len(), |i: int| reference[i].designator@)
}

/// The name of the column that labelling adds.
pub open spec fn designator_column() -> Seq<char> {
    "designator"@
}

/// What `label_record` returns: the record with the designator of the
/// first nearest reference point as its new last field.
pub open spec fn labelled(
    record: Seq<Seq<char>>,
    designators: Seq<Seq<char>>,
    distances: Seq<u64>,
) -> Result<Seq<Seq<char>>, LabelError> {
    if designators.len() == 0 {
        Err(LabelError::NoReferenceData)
    } else if distances.len() != designators.len() {
        Err(LabelError::DistanceCount)
    } else if has_nan(distances) {
        Err(LabelError::NanCoordinate)
    } else {
        Ok(record.push(designators[first_minimum(distances)]))
    }
}

/// Copies the fields of a row.
fn copy_row(row: &Vec<String>) -> (copy: Vec<String>)
    ensures
        copy.deep_view() == row.deep_view(),
        copy@.len() == row@.len(),
{
    let mut copy: Vec<String> = Vec::new();
    let mut i: usize = 0;
    while i < row.len()
        invariant
            0 <= i <= row.len(),
            copy@.len() == i,
            forall|j: int| 0 <= j < i ==> copy@[j]@ == row@[j]@,
        decreases row.len() - i,
    {
        copy.push(row[i].clone());
        i = i + 1;
    }
    assert(copy.deep_view() =~= row.deep_view());
    copy
}

/// The header of the output: the header of the input and the new column.
pub fn output_header(header: &Vec<String>) -> (extended: Vec<String>)
    ensures
        extended.deep_view() == header.deep_view().push(designator_column()),
{
    let mut extended = copy_row(header);
    let name: String = "designator".to_string();
    extended.push(name);
    assert(extended.deep_view() =~= header.deep_view().push(designator_column()));
    extended
}

/// Labels one record. `distances` holds, for each reference point in turn,
/// its distance from the record. The record comes back with one more field,
/// the designator of the nearest reference point; of several at the same
/// smallest distance, the first in the reference table.
pub fn label_record(
    record: &Vec<String>,
    reference: &Vec<ReferencePoint>,
    distances: &Vec<u64>,
) -> (row: Result<Vec<String>, LabelError>)
    ensures
        match labelled(record.deep_view(), designators(reference@), distances@) {
            Ok(fields) => row matches Ok(r) && r.deep_view() == fields,
            Err(e) => row == Err::<Vec<String>, LabelError>(e),
        },
{
    if reference.len() == 0 {
        return Err(LabelError::NoReferenceData);
    }
    if distances.len() != reference.len() {
        return Err(LabelError::DistanceCount);
    }
    match nearest_index(distances) {
        Err(e) => Err(e),
        Ok(i) => {
            let mut row = copy_row(record);
            row.push(reference[i].designator.clone());
            assert(row.deep_view() =~= record.deep_view().push(
                designators(reference@)[i as int],
            ));
            Ok(row)
        },
    }
}

/// The rows of distances as sequences.
pub open spec fn distance_rows(distances: Seq<Vec<u64>>) -> Seq<Seq<u64>> {
    Seq::new(distances.len(), |i: int| distances[i]@)
}

/// The records with their labels, in their order, or the failure of the
/// first record that cannot be labelled.
pub open spec fn labelled_rows(
    records: Seq<Seq<Seq<char>>>,
    designators: Seq<Seq<char>>,
    distances: Seq<Seq<u64>>,
) -> Result<Seq<Seq<Seq<char>>>, LabelError>
    decreases records.len(),
{
    if distances.len() != records.len() {
        Err(LabelError::DistanceCount)
    } else if records.len() == 0 {
        Ok(Seq::empty())
    } else {
        match labelled_rows(records.drop_last(), designators, distances.drop_last()) {
            Err(e) => Err(e),
            Ok(rows) => match labelled(records.last(), designators, distances.last()) {
                Err(e) => Err(e),
                Ok(row) => Ok(rows.push(row)),
            },
        }
    }
}

/// A failure among the first `k` records is the failure of the whole.
proof fn lemma_failure_stays(
    records: Seq<Seq<Seq<char>>>,
    designators: Seq<Seq<char>>,
    distances: Seq<Seq<u64>>,
    k: int,
)
    requires
        0 <= k <= records.len(),
        distances.len() == records.len(),
        labelled_rows(records.take(k), designators, distances.take(k)) is Err,
    ensures
        labelled_rows(records, designators, distances) == labelled_rows(
            records.take(k),
            designators,
            distances.take(k),
        ),
    decreases records.len(),
{
    if k < records.len() {
        assert(records.drop_last().take(k) =~= records.take(k));
        assert(distances.drop_last().take(k) =~= distances.take(k));
        lemma_failure_stays(records.drop_last(), designators, distances.drop_last(), k);
    } else {
        assert(records.take(k) =~= records);
        assert(distances.take(k) =~= distances);
    }
}

/// What `label_table` returns: the extended header, then the labelled
/// records.
pub open spec fn labelled_table(
    header: Seq<Seq<char>>,
    records: Seq<Seq<Seq<char>>>,
    designators: Seq<Seq<char>>,
    distances: Seq<Seq<u64>>,
) -> Result<Seq<Seq<Seq<char>>>, LabelError> {
    match labelled_rows(records, designators, distances) {
        Err(e) => Err(e),
        Ok(rows) => Ok(seq![header.push(designator_column())] + rows),
    }
}

/// Whether a run that returned `table` returned what was `expected`: the
/// same failure, or rows with the same fields.
pub open spec fn is_outcome(
    table: Result<Vec<Vec<String>>, LabelError>,
    expected: Result<Seq<Seq<Seq<char>>>, LabelError>,
) -> bool {
    match expected {
        Ok(rows) => table matches Ok(t) && t.deep_view() == rows,
        Err(e) => table matches Err(f) && f == e,
    }
}

/// Labels every record of a table. `distances` holds one row for each
/// record, and in it one distance for each reference point. The result is
/// the extended header followed by the labelled records in their order. The
/// first record that cannot be labelled decides the failure.
pub fn label_table(
    primary: &PrimaryTable,
    reference: &Vec<ReferencePoint>,
    distances: &Vec<Vec<u64>>,
) -> (table: Result<Vec<Vec<String>>, LabelError>)
    ensures
        is_outcome(
            table,
            labelled_table(
                primary.header.deep_view(),
                primary.records.deep_view(),
                designators(reference@),
                distance_rows(distances@),
            ),
        ),
{
    if distances.len() != primary.records.len() {
        return Err(LabelError::DistanceCount);
    }
    let ghost names = designators(reference@);
    let mut table: Vec<Vec<String>> = Vec::new();
    table.push(output_header(&primary.header));
    let mut i: usize = 0;
    while i < primary.records.len()
        invariant
            0 <= i <= primary.records.len(),
            distances.len() == primary.records.len(),
            names == designators(reference@),
            table@.len() == i + 1,
            table@[0].deep_view() == primary.header.deep_view().push(designator_column()),
            labelled_rows(
                primary.records.deep_view().take(i as int),
                names,
                distance_rows(distances@).take(i as int),
            ) matches Ok(rows) && rows == table.deep_view().skip(1),
        decreases primary.records.len() - i,
    {
        let ghost before = table.deep_view();
        proof {
            let r = primary.records.deep_view().take(i + 1);
            let d = distance_rows(distances@).take(i + 1);
            assert(r.drop_last() =~= primary.records.deep_view().take(i as int));
            assert(d.drop_last() =~= distance_rows(distances@).take(i as int));
            assert(r.last() == primary.records@[i as int].deep_view());
            assert(d.last() == distances@[i as int]@);
        }
        match label_record(&primary.records[i], reference, &distances[i]) {
            Err(e) => {
                proof {
                    assert(primary.records.deep_view().take(primary.records.len() as int)
                        =~= primary.records.deep_view());
                    assert(distance_rows(distances@).take(distances.len() as int)
                        =~= distance_rows(distances@));
                    lemma_failure_stays(
                        primary.records.deep_view(),
                        names,
                        distance_rows(distances@),
                        i + 1,
                    );
                }
                return Err(e);
            },
            Ok(row) => {
                table.push(row);
                assert(table.deep_view().skip(1) =~= before.skip(1).push(row.deep_view()));
            },
        }
        i = i + 1;
    }
    proof {
        assert(primary.records.deep_view().take(primary.records.len() as int)
            =~= primary.records.deep_view());
        assert(distance_rows(distances@).take(distances.len() as int) =~= distance_rows(
            distances@,
        ));
        assert(table.deep_view() =~= seq![primary.header.deep_view().push(designator_column())]
            + table.deep_view().skip(1));
    }
    Ok(table)
}

/// The rows are labelled exactly when there is a row of distances for
/// each record and each record can be labelled. Each labelled row is then
/// its record with the designator of the first nearest reference point
/// behind it.
pub proof fn lemma_labelled_rows(
    records: Seq<Seq<Seq<char>>>,
    designators: Seq<Seq<char>>,
    distances: Seq<Seq<u64>>,
)
    ensures
        labelled_rows(records, designators, distances) is Ok <==> distances.len() == records.len()
            && forall|i: int|
            0 <= i < records.len() ==> (#[trigger] labelled(
                records[i],
                designators,
                distances[i],
            )) is Ok,
        labelled_rows(records, designators, distances) matches Ok(rows) ==> rows.len()
            == records.len() && forall|i: int|
            0 <= i < records.len() ==> Ok::<Seq<Seq<char>>, LabelError>(#[trigger] rows[i])
                == labelled(records[i], designators, distances[i]),
    decreases records.len(),
{
    if distances.len() == records.len() && records.len() > 0 {
        let front = records.drop_last();
        let front_distances = distances.drop_last();
        lemma_labelled_rows(front, designators, front_distances);
        assert(forall|i: int|
            0 <= i < front.len() ==> front[i] == records[i] && front_distances[i] == distances[i]);
        let n = records.len() - 1;
        if labelled_rows(records, designators, distances) is Ok {
            assert forall|i: int| 0 <= i < records.len() implies (#[trigger] labelled(
                records[i],
                designators,
                distances[i],
            )) is Ok by {
                if i < n {
                    assert(labelled(front[i], designators, front_distances[i]) is Ok);
                }
            }
        } else {
            if labelled_rows(front, designators, front_distances) is Ok {
                assert(labelled(records[n], designators, distances[n]) is Err);
            } else {
                let i = choose|i: int|
                    0 <= i < front.len() && !(#[trigger] labelled(
                        front[i],
                        designators,
                        front_distances[i],
                    ) is Ok);
                assert(labelled(records[i], designators, distances[i]) is Err);
            }
        }
    }
}

/// A run gives one output row for each record and one for the header, and
/// each output row has one field more than the row it was made of, whose
/// fields come first and in their order.
pub proof fn lemma_output_shape(
    header: Seq<Seq<char>>,
    records: Seq<Seq<Seq<char>>>,
    designators: Seq<Seq<char>>,
    distances: Seq<Seq<u64>>,
)
    requires
        labelled_table(header, records, designators, distances) is Ok,
    ensures
        ({
            let output = labelled_table(header, records, designators, distances)->Ok_0;
            &&& output.len() == records.len() + 1
            &&& output[0].len() == header.len() + 1
            &&& output[0].drop_last() == header
            &&& output[0].last() == designator_column()
            &&& forall|i: int|
                0 <= i < records.len() ==> (#[trigger] output[i + 1]).len() == records[i].len()
                    + 1 && output[i + 1].drop_last() == records[i]
        }),
{
    lemma_labelled_rows(records, designators, distances);
    let rows = labelled_rows(records, designators, distances)->Ok_0;
    let output = labelled_table(header, records, designators, distances)->Ok_0;
    assert(output[0].drop_last() =~= header);
    assert forall|i: int| 0 <= i < records.len() implies (#[trigger] output[i + 1]).len()
        == records[i].len() + 1 && output[i + 1].drop_last() == records[i] by {
        assert(output[i + 1] == rows[i]);
        assert(Ok::<Seq<Seq<char>>, LabelError>(rows[i]) == labelled(
            records[i],
            designators,
            distances[i],
        ));
        assert(rows[i].drop_last() =~= records[i]);
    }
}

/// Where the header and the records all have the same number of fields,
/// so have the rows of the output: such a table can always be written.
pub proof fn lemma_output_uniform(
    header: Seq<Seq<char>>,
    records: Seq<Seq<Seq<char>>>,
    designators: Seq<Seq<char>>,
    distances: Seq<Seq<u64>>,
)
    requires
        uniform(seq![header] + records),
        labelled_table(header, records, designators, distances) is Ok,
    ensures
        uniform(labelled_table(header, records, designators, distances)->Ok_0),
{
    lemma_output_shape(header, records, designators, distances);
    let input = seq![header] + records;
    let output = labelled_table(header, records, designators, distances)->Ok_0;
    assert(input[0] == header);
    assert forall|i: int| 0 <= i < output.len() implies (#[trigger] output[i]).len()
        == output[0].len() by {
        if i > 0 {
            assert(input[i] == records[i - 1]);
            assert(output[(i - 1) + 1].len() == records[i - 1].len() + 1);
        }
    }
}

/// Where there is one reference point, every record gets its designator,
/// whatever the distance, as long as the distance is a number.
pub proof fn lemma_single_reference(record: Seq<Seq<char>>, designator: Seq<char>, distance: u64)
    requires
        !is_nan(distance),
    ensures
        labelled(record, seq![designator], seq![distance]) == Ok::<Seq<Seq<char>>, LabelError>(
            record.push(designator),
        ),
{
    let distances = seq![distance];
    if has_nan(distances) {
        let j = choose|j: int| 0 <= j < distances.len() && is_nan(#[trigger] distances[j]);
        assert(distances[j] == distance);
    }
}

/// Two runs on the same input end alike: with the same failure, or with
/// rows that hold the same fields.
pub proof fn lemma_runs_agree(
    first: Result<Vec<Vec<String>>, LabelError>,
    second: Result<Vec<Vec<String>>, LabelError>,
    expected: Result<Seq<Seq<Seq<char>>>, LabelError>,
)
    requires
        is_outcome(first, expected),
        is_outcome(second, expected),
    ensures
        first is Ok <==> second is Ok,
        first matches Ok(a) ==> second matches Ok(b) && a.deep_view() == b.deep_view(),
        first matches Err(e) ==> second matches Err(f) && e == f,
{
}

} // verus!
