//! Rows of text fields and the typed tuples decoded from them.

use vstd::prelude::*;
use crate::error::{outcome, IngestError, IngestErrorView};
use crate::relation::Relations;

verus! {

/// A number of the engine's numeric type, held as the bit pattern of the
/// single-precision value that it is.
#[derive(Clone, Copy, Debug, PartialEq, Eq, Structural)]
pub struct Number {
    pub bits: u32,
}

impl DeepView for Number {
    type V = Number;

    open spec fn deep_view(&self) -> Number {
        *self
    }
}

/// One field of a row: its text, and the number that the text reads as in the
/// engine's numeric type, where it reads as one.
#[derive(Debug, PartialEq, Eq)]
pub struct Field {
    pub text: String,
    pub number: Option<Number>,
}

/// A [`Field`] with its text as a sequence of characters.
pub struct FieldView {
    pub text: Seq<char>,
    pub number: Option<Number>,
}

impl DeepView for Field {
    type V = FieldView;

    open spec fn deep_view(&self) -> FieldView {
        FieldView { text: self.text@, number: self.number }
    }
}

impl Field {
    /// A field with the given text and numeric reading.
    pub fn new(text: String, number: Option<Number>) -> (field: Field)
        ensures
            field.deep_view() == (FieldView { text: text@, number }),
    {
        Field { text, number }
    }
}

impl Clone for Field {
    fn clone(&self) -> (copy: Field)
        ensures
            copy.deep_view() == self.deep_view(),
    {
        Field { text: self.text.clone(), number: self.number }
    }
}

/// A typed tuple of one relation.
#[derive(Debug, PartialEq, Eq)]
pub enum Tuple {
    Edge { parent: String, child: String, weight: Number },
}

/// A [`Tuple`] with its texts as sequences of characters.
pub enum TupleView {
    Edge { parent: Seq<char>, child: Seq<char>, weight: Number },
}

impl DeepView for Tuple {
    type V = TupleView;

    open spec fn deep_view(&self) -> TupleView {
        match *self {
            Tuple::Edge { parent, child, weight } => TupleView::Edge {
                parent: parent@,
                child: child@,
                weight,
            },
        }
    }
}

impl Clone for Tuple {
    fn clone(&self) -> (copy: Tuple)
        ensures
            copy.deep_view() == self.deep_view(),
    {
        match self {
            Tuple::Edge { parent, child, weight } => Tuple::Edge {
                parent: parent.clone(),
                child: child.clone(),
                weight: *weight,
            },
        }
    }
}

impl Tuple {
    /// The relation that the tuple belongs to.
    pub fn relation(&self) -> (relation: Relations)
        ensures
            relation == relation_of(self.deep_view()),
    {
        match self {
            Tuple::Edge { .. } => Relations::Edge,
        }
    }
}

/// The relation that a tuple belongs to.
pub open spec fn relation_of(tuple: TupleView) -> Relations {
    match tuple {
        TupleView::Edge { .. } => Relations::Edge,
    }
}

/// How many fields a tuple of `relation` is read from.
pub open spec fn arity(relation: Relations) -> nat {
    match relation {
        Relations::Edge => 3,
    }
}

/// The tuple of `relation` that the fields from `offset` on stand for. The
/// row must hold every field of the relation's shape, and each numeric field
/// must read as a number; a text field is taken as it is.
pub open spec fn decode(fields: Seq<FieldView>, offset: int, relation: Relations) -> Result<
    TupleView,
    IngestErrorView,
> {
    if fields.len() < offset + arity(relation) {
        Err(IngestErrorView::MalformedField)
    } else {
        match relation {
            Relations::Edge => match fields[offset + 2].number {
                Some(weight) => Ok(
                    TupleView::Edge {
                        parent: fields[offset].text,
                        child: fields[offset + 1].text,
                        weight,
                    },
                ),
                None => Err(IngestErrorView::MalformedField),
            },
        }
    }
}

/// The number that a tuple holds.
pub open spec fn weight_of(tuple: TupleView) -> Number {
    match tuple {
        TupleView::Edge { weight, .. } => weight,
    }
}

/// The fields that a tuple is written back as, where `numeral` is the field
/// written for its number: a text, and what that text reads as. The text
/// fields are the tuple's own. Nothing is asked of `numeral` here: whether it
/// reads as the tuple's number is for the caller to say.
pub open spec fn encode(tuple: TupleView, numeral: FieldView) -> Seq<FieldView> {
    match tuple {
        TupleView::Edge { parent, child, .. } => seq![
            FieldView { text: parent, number: None },
            FieldView { text: child, number: None },
            numeral,
        ],
    }
}

/// The number of fields that a tuple of `relation` takes.
pub fn required_fields(relation: Relations) -> (count: usize)
    ensures
        count == arity(relation),
{
    match relation {
        Relations::Edge => 3,
    }
}

/// Decodes the fields of `tuple` from `offset` on as a tuple of `relation`.
pub fn parse_tuple_for_relation(tuple: &Vec<Field>, offset: usize, relation: Relations) -> (decoded:
    Result<Tuple, IngestError>)
    ensures
        outcome(decoded) == decode(tuple.deep_view(), offset as int, relation),
{
    let needed = required_fields(relation);
    if tuple.len() < needed || offset > tuple.len() - needed {
        return Err(IngestError::MalformedField);
    }
    match relation {
        Relations::Edge => match tuple[offset + 2].number {
            Some(weight) => Ok(
                Tuple::Edge {
                    parent: tuple[offset].text.clone(),
                    child: tuple[offset + 1].text.clone(),
                    weight,
                },
            ),
            None => Err(IngestError::MalformedField),
        },
    }
}

/// Decoding reads only the fields of the relation's shape, counted from the
/// offset: a row decoded at an offset gives what the row without its first
/// `offset` fields gives at offset 0.
pub proof fn lemma_decode_reads_from_offset(
    fields: Seq<FieldView>,
    offset: int,
    relation: Relations,
)
    requires
        0 <= offset <= fields.len(),
    ensures
        decode(fields, offset, relation) == decode(fields.skip(offset), 0, relation),
{
}

/// Decoding is stable under writing a tuple back, provided that the text
/// written for its number reads as that number. A decoded tuple, written back
/// with such a numeral, decodes to the same tuple, and so does every further
/// round; the text fields come back as they were read. With a numeral that
/// reads as anything else, or as no number, the tuple does not come back.
pub proof fn lemma_decode_encode_stable(
    fields: Seq<FieldView>,
    offset: int,
    relation: Relations,
    numeral: FieldView,
)
    requires
        0 <= offset,
        decode(fields, offset, relation) is Ok,
    ensures
        ({
            let tuple = decode(fields, offset, relation)->Ok_0;
            let written = encode(tuple, numeral);
            &&& relation_of(tuple) == relation
            &&& written.len() == arity(relation)
            &&& forall|i: int|
                0 <= i < written.len() && written[i] != numeral ==> written[i].text
                    == fields[offset + i].text
            &&& numeral.number == Some(weight_of(tuple)) <==> decode(written, 0, relation) == Ok::<
                TupleView,
                IngestErrorView,
            >(tuple)
            &&& numeral.number == Some(weight_of(tuple)) ==> encode(
                decode(written, 0, relation)->Ok_0,
                numeral,
            ) == written
        }),
{
}

} // verus!
