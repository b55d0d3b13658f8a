//! Partition specs: how the rows of a table are grouped into files.
use crate::text::{
    chars_of, decimal_string, digits, digits_value, lemma_digits, same_text,
};
use vstd::prelude::*;
use vstd::string::*;

verus! {

/// A function from a source column's value to the value that rows are
/// grouped or sorted by.
#[derive(Clone, Copy, Debug, PartialEq, Eq, Structural)]
pub enum Transform {
    /// The value itself.
    Identity,
    /// The hash of the value, modulo the given number of buckets.
    Bucket(u32),
    /// The value cut to the given width.
    Truncate(u32),
    /// The year of a date or timestamp.
    Year,
    /// The month of a date or timestamp.
    Month,
    /// The day of a date or timestamp.
    Day,
    /// The hour of a timestamp.
    Hour,
    /// Always null.
    Void,
}

/// A name with an argument in square brackets after it.
pub open spec fn argument_text(name: Seq<char>, argument: u32) -> Seq<char> {
    name + seq!['['] + digits(argument as nat) + seq![']']
}

/// The text form of a transform: its name in lower case, followed for a
/// bucket or a truncation by the number in square brackets, written in
/// decimal without leading zeros.
pub open spec fn transform_text(transform: Transform) -> Seq<char> {
    match transform {
        Transform::Identity => "identity"@,
        Transform::Bucket(buckets) => argument_text("bucket"@, buckets),
        Transform::Truncate(width) => argument_text("truncate"@, width),
        Transform::Year => "year"@,
        Transform::Month => "month"@,
        Transform::Day => "day"@,
        Transform::Hour => "hour"@,
        Transform::Void => "void"@,
    }
}

/// Where the argument stands in a name with an argument.
proof fn lemma_argument_text(text: Seq<char>, name: Seq<char>, argument: u32)
    requires
        text == argument_text(name, argument),
    ensures
        text.len() == name.len() + 2 + digits(argument as nat).len(),
        text.subrange(name.len() as int + 1, text.len() - 1) == digits(argument as nat),
        text.len() >= name.len() + 3,
{
    lemma_digits(argument as nat, 0);
    assert(text.subrange(name.len() as int + 1, text.len() - 1) =~= digits(argument as nat));
}

/// Reads the argument of a name with an argument, if `text` is the name
/// with one.
fn argument(text: &str, name: &str) -> (read: Option<u32>)
    ensures
        read is Some ==> text@ == argument_text(name@, read->Some_0),
        read is None ==> forall|n: u32| text@ != #[trigger] argument_text(name@, n),
{
    let chars = chars_of(text);
    let n = chars.len();
    let p = name.unicode_len();
    if n < 3 || n - 3 < p {
        assert forall|m: u32| text@ != #[trigger] argument_text(name@, m) by {
            if text@ == argument_text(name@, m) {
                lemma_argument_text(text@, name@, m);
            }
        }
        return None;
    }
    let mut value: u64 = 0;
    let mut i: usize = p + 1;
    assert(chars@.subrange(p + 1, p + 1) =~= Seq::<char>::empty());
    while i < n - 1
        invariant
            p + 1 <= i <= n - 1,
            n == chars@.len(),
            chars@ == text@,
            p == name@.len(),
            value == digits_value(chars@.subrange(p + 1, i as int)),
            value <= u32::MAX,
        decreases n - i,
    {
        let c = chars[i];
        let ghost done = chars@.subrange(p + 1, i as int);
        let ghost more = chars@.subrange(p + 1, i + 1);
        assert(more.drop_last() =~= done);
        assert(more.last() == c);
        if c < '0' || c > '9' {
            assert forall|m: u32| text@ != #[trigger] argument_text(name@, m) by {
                if text@ == argument_text(name@, m) {
                    lemma_argument_text(text@, name@, m);
                    lemma_digits(m as nat, 0);
                    assert(digits(m as nat)[i - p - 1] == c);
                }
            }
            return None;
        }
        let d: u32 = c as u32 - '0' as u32;
        value = value * 10 + d as u64;
        if value > u32::MAX as u64 {
            assert forall|m: u32| text@ != #[trigger] argument_text(name@, m) by {
                if text@ == argument_text(name@, m) {
                    lemma_argument_text(text@, name@, m);
                    lemma_digits(m as nat, i + 1 - p - 1);
                    assert(digits(m as nat).take(i + 1 - p - 1) =~= more);
                }
            }
            return None;
        }
        i = i + 1;
    }
    let candidate: u32 = value as u32;
    let mut expected = String::from_str(name);
    expected.append("[");
    expected.append(decimal_string(candidate as i64).as_str());
    expected.append("]");
    proof {
        reveal_strlit("[");
        reveal_strlit("]");
        assert("["@ =~= seq!['[']);
        assert("]"@ =~= seq![']']);
    }
    if same_text(expected.as_str(), text) {
        Some(candidate)
    } else {
        assert forall|m: u32| text@ != #[trigger] argument_text(name@, m) by {
            if text@ == argument_text(name@, m) {
                lemma_argument_text(text@, name@, m);
                lemma_digits(m as nat, 0);
                assert(candidate == m);
            }
        }
        None
    }
}

impl Transform {
    /// The text form of the transform.
    pub fn to_string(&self) -> (text: String)
        ensures
            text@ == transform_text(*self),
    {
        proof {
            reveal_strlit("[");
            reveal_strlit("]");
            assert("["@ =~= seq!['[']);
            assert("]"@ =~= seq![']']);
        }
        match self {
            Transform::Identity => String::from_str("identity"),
            Transform::Bucket(buckets) => {
                let mut text = String::from_str("bucket");
                text.append("[");
                text.append(decimal_string(*buckets as i64).as_str());
                text.append("]");
                text
            },
            Transform::Truncate(width) => {
                let mut text = String::from_str("truncate");
                text.append("[");
                text.append(decimal_string(*width as i64).as_str());
                text.append("]");
                text
            },
            Transform::Year => String::from_str("year"),
            Transform::Month => String::from_str("month"),
            Transform::Day => String::from_str("day"),
            Transform::Hour => String::from_str("hour"),
            Transform::Void => String::from_str("void"),
        }
    }

    /// Reads a transform from its text form. A text that is the form of no
    /// transform reads as nothing: a name in another case, a number with a
    /// sign or a leading zero, or one that is too large.
    pub fn parse(text: &str) -> (read: Option<Transform>)
        ensures
            read is Some ==> text@ == transform_text(read->Some_0),
            read is None ==> forall|transform: Transform|
                text@ != #[trigger] transform_text(transform),
    {
        if same_text(text, "identity") {
            return Some(Transform::Identity);
        }
        if same_text(text, "year") {
            return Some(Transform::Year);
        }
        if same_text(text, "month") {
            return Some(Transform::Month);
        }
        if same_text(text, "day") {
            return Some(Transform::Day);
        }
        if same_text(text, "hour") {
            return Some(Transform::Hour);
        }
        if same_text(text, "void") {
            return Some(Transform::Void);
        }
        match argument(text, "bucket") {
            Some(buckets) => {
                return Some(Transform::Bucket(buckets));
            },
            None => {},
        }
        match argument(text, "truncate") {
            Some(width) => Some(Transform::Truncate(width)),
            None => {
                assert forall|transform: Transform| text@ != #[trigger] transform_text(
                    transform,
                ) by {
                    match transform {
                        Transform::Bucket(buckets) => {
                            assert(text@ != argument_text("bucket"@, buckets));
                        },
                        Transform::Truncate(width) => {
                            assert(text@ != argument_text("truncate"@, width));
                        },
                        _ => {},
                    }
                }
                None
            },
        }
    }
}

/// No two transforms have the same text form, so reading the text form of a
/// transform gives that transform and no other.
pub proof fn lemma_transform_text_injective(a: Transform, b: Transform)
    requires
        transform_text(a) == transform_text(b),
    ensures
        a == b,
{
    reveal_strlit("identity");
    reveal_strlit("bucket");
    reveal_strlit("truncate");
    reveal_strlit("year");
    reveal_strlit("month");
    reveal_strlit("day");
    reveal_strlit("hour");
    reveal_strlit("void");
    let text = transform_text(a);
    assert(text.len() > 0 && transform_text(b)[0] == text[0]) by {
        match a {
            Transform::Bucket(n) => {
                lemma_argument_text(text, "bucket"@, n);
                assert(text[0] == "bucket"@[0]);
            },
            Transform::Truncate(n) => {
                lemma_argument_text(text, "truncate"@, n);
                assert(text[0] == "truncate"@[0]);
            },
            _ => {},
        }
    }
    match b {
        Transform::Bucket(n) => {
            lemma_argument_text(text, "bucket"@, n);
            assert(text[0] == "bucket"@[0]);
        },
        Transform::Truncate(n) => {
            lemma_argument_text(text, "truncate"@, n);
            assert(text[0] == "truncate"@[0]);
        },
        _ => {},
    }
    match (a, b) {
        (Transform::Bucket(n), Transform::Bucket(m)) => {
            lemma_argument_text(text, "bucket"@, n);
            lemma_argument_text(text, "bucket"@, m);
            lemma_digits(n as nat, 0);
            lemma_digits(m as nat, 0);
        },
        (Transform::Truncate(n), Transform::Truncate(m)) => {
            lemma_argument_text(text, "truncate"@, n);
            lemma_argument_text(text, "truncate"@, m);
            lemma_digits(n as nat, 0);
            lemma_digits(m as nat, 0);
        },
        _ => {},
    }
}

/// One field of a partition spec.
#[derive(Debug, PartialEq, Eq)]
pub struct PartitionField {
    /// A source column id from the table's schema
    pub source_id: i32,
    /// An id that is unique within the partition spec
    pub field_id: i32,
    /// The name of the partition
    pub name: String,
    /// The transform applied to the source column
    pub transform: Transform,
}

/// The plain value of a partition field.
pub struct PartitionFieldModel {
    pub source_id: i32,
    pub field_id: i32,
    pub name: Seq<char>,
    pub transform: Transform,
}

impl DeepView for PartitionField {
    type V = PartitionFieldModel;

    open spec fn deep_view(&self) -> PartitionFieldModel {
        PartitionFieldModel {
            source_id: self.source_id,
            field_id: self.field_id,
            name: self.name@,
            transform: self.transform,
        }
    }
}

impl Clone for PartitionField {
    fn clone(&self) -> (copy: Self)
        ensures
            copy.deep_view() == self.deep_view(),
    {
        PartitionField {
            source_id: self.source_id,
            field_id: self.field_id,
            name: self.name.clone(),
            transform: self.transform,
        }
    }
}

/// A partition spec: an id and the fields to partition by, in order.
#[derive(Debug, PartialEq, Eq)]
pub struct PartitionSpec {
    /// Identifier of the spec within its table
    pub spec_id: i32,
    /// The fields, outermost first
    pub fields: Vec<PartitionField>,
}

/// The plain value of a partition spec.
pub struct PartitionSpecModel {
    pub spec_id: i32,
    pub fields: Seq<PartitionFieldModel>,
}

impl DeepView for PartitionSpec {
    type V = PartitionSpecModel;

    open spec fn deep_view(&self) -> PartitionSpecModel {
        PartitionSpecModel { spec_id: self.spec_id, fields: self.fields.deep_view() }
    }
}

impl Clone for PartitionSpec {
    fn clone(&self) -> (copy: Self)
        ensures
            copy.deep_view() == self.deep_view(),
    {
        let fields = self.fields.clone();
        assert(fields.deep_view() =~= self.fields.deep_view());
        PartitionSpec { spec_id: self.spec_id, fields }
    }
}

} // verus!
