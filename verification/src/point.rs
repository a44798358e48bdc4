//! What the database sink writes for a reading: one point for each of the
//! three values, all under one measurement and one tag.

use crate::reading::{Field, Reading, ReadingView};
use vstd::prelude::*;

verus! {

/// What a point is: the measurement it belongs to, its one tag, and its one
/// field with the text of the field's number.
pub ghost struct PointView {
    pub measurement: Seq<char>,
    pub tag_name: Seq<char>,
    pub tag_value: Seq<char>,
    pub field: Seq<char>,
    pub value: Seq<char>,
}

/// One point of a time series, with one tag and one field.
#[derive(Debug, PartialEq, Eq)]
pub struct FieldPoint {
    pub measurement: String,
    pub tag_name: String,
    pub tag_value: String,
    pub field: String,
    pub value: String,
}

impl View for FieldPoint {
    type V = PointView;

    open spec fn view(&self) -> PointView {
        PointView {
            measurement: self.measurement@,
            tag_name: self.tag_name@,
            tag_value: self.tag_value@,
            field: self.field@,
            value: self.value@,
        }
    }
}

impl DeepView for FieldPoint {
    type V = PointView;

    open spec fn deep_view(&self) -> PointView {
        self@
    }
}

/// The point that carries one value of a reading: measurement `sievert`, tag
/// `location=home`, the field named after the value.
pub open spec fn point_of(r: ReadingView, field: Field) -> PointView {
    PointView {
        measurement: "sievert"@,
        tag_name: "location"@,
        tag_value: "home"@,
        field: field.name_text(),
        value: r.value(field),
    }
}

/// The batch for a reading: the points for `cpm`, `acpm` and `usv`, in this
/// order.
pub open spec fn points_of(r: ReadingView) -> Seq<PointView> {
    seq![point_of(r, Field::Cpm), point_of(r, Field::Acpm), point_of(r, Field::Usv)]
}

/// The point that carries one value of `reading`.
pub fn point(reading: &Reading, field: Field) -> (p: FieldPoint)
    ensures
        p@ == point_of(reading@, field),
{
    FieldPoint {
        measurement: "sievert".to_owned(),
        tag_name: "location".to_owned(),
        tag_value: "home".to_owned(),
        field: field.name().to_owned(),
        value: reading.value(field).to_owned(),
    }
}

/// The batch that the database sink writes for `reading`.
pub fn points(reading: &Reading) -> (batch: Vec<FieldPoint>)
    ensures
        batch.deep_view() == points_of(reading@),
{
    let mut batch: Vec<FieldPoint> = Vec::new();
    batch.push(point(reading, Field::Cpm));
    batch.push(point(reading, Field::Acpm));
    batch.push(point(reading, Field::Usv));
    assert(batch.deep_view() =~= points_of(reading@));
    batch
}

} // verus!
