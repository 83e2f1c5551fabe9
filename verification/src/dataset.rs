//! The two tables of a run: the reference points and the records to label.

use vstd::prelude::*;
use crate::error::LabelError;
use crate::table::{csv_rows, parse_table, parsed, uniform};

verus! {

/// The fewest fields that a row of the reference table may have: two
/// coordinates and a designator.
pub const REFERENCE_FIELDS: usize = 3;

/// The fewest fields that a record may have: two coordinates.
pub const RECORD_FIELDS: usize = 2;

/// One row of the reference table: the text of its two coordinates and the
/// designator that it lends to the records nearest to it.
#[derive(Clone, Debug)]
pub struct ReferencePoint {
    pub x: String,
    pub y: String,
    pub designator: String,
}

/// A reference point as three texts.
pub ghost struct PointText {
    pub x: Seq<char>,
    pub y: Seq<char>,
    pub designator: Seq<char>,
}

impl View for ReferencePoint {
    type V = PointText;

    open spec fn view(&self) -> PointText {
        PointText { x: self.x@, y: self.y@, designator: self.designator@ }
    }
}

/// The reference points as texts, in their order.
pub open spec fn point_texts(points: Seq<ReferencePoint>) -> Seq<PointText> {
    Seq::new(points.len(), |i: int| points[i]@)
}

/// The table to label: the names of its columns and its records. Each
/// record starts with the text of its two coordinates.
#[derive(Clone, Debug)]
pub struct PrimaryTable {
    pub header: Vec<String>,
    pub records: Vec<Vec<String>>,
}

impl PrimaryTable {
    /// Every record has its two coordinate fields.
    pub open spec fn wf(&self) -> bool {
        !has_short_row(self.records.deep_view(), RECORD_FIELDS as int)
    }
}

/// Whether some row has fewer than `least` fields.
pub open spec fn has_short_row(rows: Seq<Seq<Seq<char>>>, least: int) -> bool {
    exists|i: int| 0 <= i < rows.len() && (#[trigger] rows[i]).len() < least
}

/// The rows without the first one; no rows where there are none.
pub open spec fn after_first(rows: Seq<Seq<Seq<char>>>) -> Seq<Seq<Seq<char>>> {
    if rows.len() > 0 {
        rows.drop_first()
    } else {
        rows
    }
}

/// What `reference_points` returns: one point for each row, made of its
/// first three fields, after the first row has been set aside where it is
/// a header.
pub open spec fn reference_of(rows: Seq<Seq<Seq<char>>>, skip_header: bool) -> Result<
    Seq<PointText>,
    LabelError,
> {
    let data = if skip_header {
        after_first(rows)
    } else {
        rows
    };
    if has_short_row(data, REFERENCE_FIELDS as int) {
        Err(LabelError::Format)
    } else {
        Ok(
            Seq::new(
                data.len(),
                |i: int| PointText { x: data[i][0], y: data[i][1], designator: data[i][2] },
            ),
        )
    }
}

/// Makes the reference points of the rows of the reference table. Every
/// row is a point, the first one too, unless `skip_header` sets it aside.
/// Fails with `Format` exactly when one of these rows has fewer than three
/// fields.
pub fn reference_points(rows: &Vec<Vec<String>>, skip_header: bool) -> (points: Result<
    Vec<ReferencePoint>,
    LabelError,
>)
    ensures
        match reference_of(rows.deep_view(), skip_header) {
            Ok(texts) => points matches Ok(p) && point_texts(p@) == texts,
            Err(e) => points == Err::<Vec<ReferencePoint>, LabelError>(e),
        },
{
    let start: usize = if skip_header && rows.len() > 0 {
        1
    } else {
        0
    };
    let ghost data = if skip_header {
        after_first(rows.deep_view())
    } else {
        rows.deep_view()
    };
    assert(data.len() == rows.len() - start);
    assert(forall|j: int| 0 <= j < data.len() ==> data[j] == rows@[j + start].deep_view());
    let mut points: Vec<ReferencePoint> = Vec::new();
    let mut i: usize = start;
    while i < rows.len()
        invariant
            start <= i <= rows.len(),
            data == if skip_header {
                after_first(rows.deep_view())
            } else {
                rows.deep_view()
            },
            data.len() == rows.len() - start,
            forall|j: int| 0 <= j < data.len() ==> data[j] == rows@[j + start].deep_view(),
            points@.len() == i - start,
            forall|j: int| 0 <= j < i - start ==> (#[trigger] data[j]).len() >= REFERENCE_FIELDS,
            forall|j: int|
                0 <= j < i - start ==> (#[trigger] points@[j])@ == (PointText {
                    x: data[j][0],
                    y: data[j][1],
                    designator: data[j][2],
                }),
        decreases rows.len() - i,
    {
        let row = &rows[i];
        assert(data[i - start] == row.deep_view());
        if row.len() < REFERENCE_FIELDS {
            assert(data[i - start].len() < REFERENCE_FIELDS);
            return Err(LabelError::Format);
        }
        points.push(
            ReferencePoint { x: row[0].clone(), y: row[1].clone(), designator: row[2].clone() },
        );
        i = i + 1;
    }
    assert(point_texts(points@) =~= reference_of(rows.deep_view(), skip_header)->Ok_0);
    Ok(points)
}

/// What `primary_table` returns: the first row as the header, the others
/// as the records.
pub open spec fn primary_of(rows: Seq<Seq<Seq<char>>>) -> Result<
    (Seq<Seq<char>>, Seq<Seq<Seq<char>>>),
    LabelError,
> {
    if has_short_row(after_first(rows), RECORD_FIELDS as int) {
        Err(LabelError::Format)
    } else if rows.len() == 0 {
        Ok((Seq::empty(), Seq::empty()))
    } else {
        Ok((rows[0], rows.drop_first()))
    }
}

/// Makes the table to label of the rows of its text: the first row is the
/// header, the others are the records. Text without rows gives an empty
/// header and no records. Fails with `Format` exactly when a record has
/// fewer than two fields.
pub fn primary_table(rows: Vec<Vec<String>>) -> (table: Result<PrimaryTable, LabelError>)
    ensures
        match primary_of(rows.deep_view()) {
            Ok((header, records)) => table matches Ok(t) && t.header.deep_view() == header
                && t.records.deep_view() == records && t.wf(),
            Err(e) => table matches Err(f) && f == e,
        },
{
    let ghost all = rows.deep_view();
    let mut records = rows;
    if records.len() == 0 {
        let header: Vec<String> = Vec::new();
        assert(header.deep_view() =~= Seq::<Seq<char>>::empty());
        assert(records.deep_view() =~= Seq::<Seq<Seq<char>>>::empty());
        return Ok(PrimaryTable { header, records });
    }
    let header = records.remove(0);
    assert(records.deep_view() =~= all.drop_first());
    let mut i: usize = 0;
    while i < records.len()
        invariant
            0 <= i <= records.len(),
            all == rows.deep_view(),
            records.deep_view() == after_first(all),
            forall|j: int|
                0 <= j < i ==> (#[trigger] records.deep_view()[j]).len() >= RECORD_FIELDS,
        decreases records.len() - i,
    {
        assert(records.deep_view()[i as int] == records@[i as int].deep_view());
        if records[i].len() < RECORD_FIELDS {
            assert(after_first(all)[i as int].len() < RECORD_FIELDS);
            return Err(LabelError::Format);
        }
        i = i + 1;
    }
    Ok(PrimaryTable { header, records })
}

/// Reads the reference table from delimited text. Fails with `Format`
/// where the text is not a table or a row has fewer than three fields.
pub fn load_reference(data: &[u8], delimiter: u8, skip_header: bool) -> (points: Result<
    Vec<ReferencePoint>,
    LabelError,
>)
    ensures
        match parsed(csv_rows(data@, delimiter)) {
            Ok(rows) => match reference_of(rows, skip_header) {
                Ok(texts) => points matches Ok(p) && point_texts(p@) == texts,
                Err(e) => points == Err::<Vec<ReferencePoint>, LabelError>(e),
            },
            Err(e) => points == Err::<Vec<ReferencePoint>, LabelError>(e),
        },
{
    match parse_table(data, delimiter) {
        Ok(rows) => reference_points(&rows, skip_header),
        Err(e) => Err(e),
    }
}

/// Reads the table to label from delimited text. Fails with `Format` where
/// the text is not a table or a record has fewer than two fields.
pub fn load_primary(data: &[u8], delimiter: u8) -> (table: Result<PrimaryTable, LabelError>)
    ensures
        match parsed(csv_rows(data@, delimiter)) {
            Ok(rows) => match primary_of(rows) {
                Ok((header, records)) => table matches Ok(t) && t.header.deep_view() == header
                    && t.records.deep_view() == records && t.wf() && uniform(rows),
                Err(e) => table matches Err(f) && f == e,
            },
            Err(e) => table matches Err(f) && f == e,
        },
{
    match parse_table(data, delimiter) {
        Ok(rows) => primary_table(rows),
        Err(e) => Err(e),
    }
}

} // verus!
