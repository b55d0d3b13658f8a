//! Sort orders: how the rows within a data file are ordered.
use crate::partition::Transform;
use crate::text::same_text;
use vstd::prelude::*;
use vstd::string::*;

verus! {

/// Sort direction in a partition, either ascending or descending
#[derive(Clone, Copy, Debug, PartialEq, Eq, Structural)]
pub enum SortDirection {
    /// Ascending
    Ascending,
    /// Descending
    Descending,
}

/// Describes the order of null values when sorted.
#[derive(Clone, Copy, Debug, PartialEq, Eq, Structural)]
pub enum NullOrder {
    /// Nulls are stored first
    First,
    /// Nulls are stored last
    Last,
}

/// The text form of a sort direction.
pub open spec fn direction_text(direction: SortDirection) -> Seq<char> {
    match direction {
        SortDirection::Ascending => "asc"@,
        SortDirection::Descending => "desc"@,
    }
}

/// The text form of a null order.
pub open spec fn null_order_text(order: NullOrder) -> Seq<char> {
    match order {
        NullOrder::First => "nulls-first"@,
        NullOrder::Last => "nulls-last"@,
    }
}

impl SortDirection {
    /// The text form of the direction.
    pub fn to_string(&self) -> (text: String)
        ensures
            text@ == direction_text(*self),
    {
        match self {
            SortDirection::Ascending => String::from_str("asc"),
            SortDirection::Descending => String::from_str("desc"),
        }
    }

    /// Reads a direction from its text form.
    pub fn parse(text: &str) -> (read: Option<SortDirection>)
        ensures
            read is Some ==> text@ == direction_text(read->Some_0),
            read is None ==> forall|direction: SortDirection|
                text@ != #[trigger] direction_text(direction),
    {
        if same_text(text, "asc") {
            Some(SortDirection::Ascending)
        } else if same_text(text, "desc") {
            Some(SortDirection::Descending)
        } else {
            None
        }
    }
}

impl NullOrder {
    /// The text form of the null order.
    pub fn to_string(&self) -> (text: String)
        ensures
            text@ == null_order_text(*self),
    {
        match self {
            NullOrder::First => String::from_str("nulls-first"),
            NullOrder::Last => String::from_str("nulls-last"),
        }
    }

    /// Reads a null order from its text form.
    pub fn parse(text: &str) -> (read: Option<NullOrder>)
        ensures
            read is Some ==> text@ == null_order_text(read->Some_0),
            read is None ==> forall|order: NullOrder| text@ != #[trigger] null_order_text(order),
    {
        if same_text(text, "nulls-first") {
            Some(NullOrder::First)
        } else if same_text(text, "nulls-last") {
            Some(NullOrder::Last)
        } else {
            None
        }
    }
}

/// Entry for every column that is to be sorted
#[derive(Clone, Copy, Debug, PartialEq, Eq, Structural)]
pub struct SortField {
    /// A source column id from the table's schema
    pub source_id: i32,
    /// A transform that is used to produce values to be sorted on from the source column.
    pub transform: Transform,
    /// A sort direction, that can only be either asc or desc
    pub direction: SortDirection,
    /// A null order that describes the order of null values when sorted.
    pub null_order: NullOrder,
}

/// A sort order is defined by a sort order id and a list of sort fields.
/// The order of the sort fields within the list defines the order in which the sort is applied to the data.
#[derive(Debug, PartialEq, Eq)]
pub struct SortOrder {
    /// Identifier for SortOrder, order_id `0` is no sort order.
    pub order_id: i32,
    /// Details of the sort
    pub fields: Vec<SortField>,
}

} // verus!
