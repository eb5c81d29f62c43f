//! Updates to the engine's input relations, and the rows they are read from.

use vstd::prelude::*;
use crate::error::{outcome, IngestError, IngestErrorView};
use crate::relation::{relation_str_to_enum, resolve, same_text, Relations};
use crate::tuple::{decode, parse_tuple_for_relation, Field, FieldView, Tuple, TupleView};

verus! {

/// One change to an input relation.
#[derive(Debug, PartialEq, Eq)]
pub enum Update {
    Insert { relation: Relations, tuple: Tuple },
    Delete { relation: Relations, tuple: Tuple },
}

/// An [`Update`] with its tuple taken by its view.
pub enum UpdateView {
    Insert { relation: Relations, tuple: TupleView },
    Delete { relation: Relations, tuple: TupleView },
}

impl DeepView for Update {
    type V = UpdateView;

    open spec fn deep_view(&self) -> UpdateView {
        match *self {
            Update::Insert { relation, tuple } => UpdateView::Insert {
                relation,
                tuple: tuple.deep_view(),
            },
            Update::Delete { relation, tuple } => UpdateView::Delete {
                relation,
                tuple: tuple.deep_view(),
            },
        }
    }
}

impl Clone for Update {
    fn clone(&self) -> (copy: Update)
        ensures
            copy.deep_view() == self.deep_view(),
    {
        match self {
            Update::Insert { relation, tuple } => Update::Insert {
                relation: *relation,
                tuple: tuple.clone(),
            },
            Update::Delete { relation, tuple } => Update::Delete {
                relation: *relation,
                tuple: tuple.clone(),
            },
        }
    }
}

/// What the rows of a source hold.
#[derive(Clone, Copy, Debug, PartialEq, Eq, Structural)]
pub enum Feed {
    /// Tuples of one relation, each to be inserted; the fields start at
    /// column 0.
    Tuples { relation: Relations },
    /// Updates: column 0 is the sign, column 1 the relation's name, and the
    /// tuple's fields start at column 2.
    Updates,
}

/// The update that a row of an update source stands for. The sign is read
/// first, then the relation, then the tuple.
pub open spec fn signed_update(fields: Seq<FieldView>) -> Result<UpdateView, IngestErrorView> {
    if fields.len() < 1 {
        Err(IngestErrorView::MalformedField)
    } else if fields[0].text != "1"@ && fields[0].text != "-1"@ {
        Err(IngestErrorView::InvalidSignToken { token: fields[0].text })
    } else if fields.len() < 2 {
        Err(IngestErrorView::MalformedField)
    } else {
        match resolve(fields[1].text) {
            None => Err(IngestErrorView::UnknownRelation { name: fields[1].text }),
            Some(relation) => match decode(fields, 2, relation) {
                Err(error) => Err(error),
                Ok(tuple) => if fields[0].text == "1"@ {
                    Ok(UpdateView::Insert { relation, tuple })
                } else {
                    Ok(UpdateView::Delete { relation, tuple })
                },
            },
        }
    }
}

/// The update that a row of a source stands for.
pub open spec fn row_update(fields: Seq<FieldView>, feed: Feed) -> Result<
    UpdateView,
    IngestErrorView,
> {
    match feed {
        Feed::Tuples { relation } => match decode(fields, 0, relation) {
            Err(error) => Err(error),
            Ok(tuple) => Ok(UpdateView::Insert { relation, tuple }),
        },
        Feed::Updates => signed_update(fields),
    }
}

/// The updates that rows stand for, in the order of the rows, or the error of
/// the first row that stands for none.
pub open spec fn rows_updates(rows: Seq<Seq<FieldView>>, feed: Feed) -> Result<
    Seq<UpdateView>,
    IngestErrorView,
>
    decreases rows.len(),
{
    if rows.len() == 0 {
        Ok(Seq::empty())
    } else {
        match rows_updates(rows.drop_last(), feed) {
            Err(error) => Err(error),
            Ok(updates) => match row_update(rows.last(), feed) {
                Err(error) => Err(error),
                Ok(update) => Ok(updates.push(update)),
            },
        }
    }
}

/// Reads one row of an update source.
pub fn parse_update_row(fields: &Vec<Field>) -> (update: Result<Update, IngestError>)
    ensures
        outcome(update) == signed_update(fields.deep_view()),
{
    if fields.len() < 1 {
        return Err(IngestError::MalformedField);
    }
    let insert = same_text(fields[0].text.as_str(), "1");
    if !insert && !same_text(fields[0].text.as_str(), "-1") {
        return Err(IngestError::InvalidSignToken { token: fields[0].text.clone() });
    }
    if fields.len() < 2 {
        return Err(IngestError::MalformedField);
    }
    let relation = match relation_str_to_enum(fields[1].text.as_str()) {
        Ok(relation) => relation,
        Err(error) => {
            return Err(error);
        },
    };
    match parse_tuple_for_relation(fields, 2, relation) {
        Err(error) => Err(error),
        Ok(tuple) => if insert {
            Ok(Update::Insert { relation, tuple })
        } else {
            Ok(Update::Delete { relation, tuple })
        },
    }
}

/// Reads one row of a source as an update.
pub fn parse_row(fields: &Vec<Field>, feed: Feed) -> (update: Result<Update, IngestError>)
    ensures
        outcome(update) == row_update(fields.deep_view(), feed),
{
    match feed {
        Feed::Tuples { relation } => match parse_tuple_for_relation(fields, 0, relation) {
            Err(error) => Err(error),
            Ok(tuple) => Ok(Update::Insert { relation, tuple }),
        },
        Feed::Updates => parse_update_row(fields),
    }
}

/// Reads the rows from `from` up to, not including, `to` as updates. Nothing
/// is returned of rows before a row that cannot be read.
pub fn parse_rows(rows: &Vec<Vec<Field>>, from: usize, to: usize, feed: Feed) -> (updates: Result<
    Vec<Update>,
    IngestError,
>)
    requires
        from <= to <= rows.len(),
    ensures
        outcome(updates) == rows_updates(rows.deep_view().subrange(from as int, to as int), feed),
{
    let mut updates: Vec<Update> = Vec::new();
    let mut at: usize = from;
    assert(rows.deep_view().subrange(from as int, from as int) =~= Seq::empty());
    assert(updates.deep_view() =~= Seq::empty());
    while at < to
        invariant
            from <= at <= to <= rows.len(),
            rows_updates(rows.deep_view().subrange(from as int, at as int), feed) == Ok::<
                Seq<UpdateView>,
                IngestErrorView,
            >(updates.deep_view()),
        decreases to - at,
    {
        let ghost before = rows.deep_view().subrange(from as int, at as int);
        let ghost after = rows.deep_view().subrange(from as int, at + 1);
        let ghost seen = updates.deep_view();
        assert(after.drop_last() =~= before);
        assert(after.last() == rows[at as int].deep_view());
        match parse_row(&rows[at], feed) {
            Err(error) => {
                proof {
                    let whole = rows.deep_view().subrange(from as int, to as int);
                    assert(whole.take(after.len() as int) =~= after);
                    lemma_failure_stays(after, whole, feed);
                }
                return Err(error);
            },
            Ok(update) => {
                updates.push(update);
                assert(updates.deep_view() =~= seen.push(update.deep_view()));
            },
        }
        at += 1;
    }
    Ok(updates)
}

/// Rows that begin with rows that cannot all be read cannot all be read
/// either, and fail with the same error.
pub proof fn lemma_failure_stays(head: Seq<Seq<FieldView>>, rows: Seq<Seq<FieldView>>, feed: Feed)
    requires
        head.len() <= rows.len(),
        head == rows.take(head.len() as int),
        rows_updates(head, feed) is Err,
    ensures
        rows_updates(rows, feed) == rows_updates(head, feed),
    decreases rows.len(),
{
    if head.len() < rows.len() {
        assert(rows.drop_last().take(head.len() as int) =~= head);
        lemma_failure_stays(head, rows.drop_last(), feed);
    } else {
        assert(rows =~= head);
    }
}

/// Rows are read as updates one by one: they can all be read exactly if each
/// of them can, and then each update is that of the row in its place.
pub proof fn lemma_rows_read_one_by_one(rows: Seq<Seq<FieldView>>, feed: Feed)
    ensures
        rows_updates(rows, feed) is Ok <==> forall|i: int|
            0 <= i < rows.len() ==> row_update(#[trigger] rows[i], feed) is Ok,
        rows_updates(rows, feed) is Ok ==> {
            &&& rows_updates(rows, feed)->Ok_0.len() == rows.len()
            &&& forall|i: int|
                0 <= i < rows.len() ==> Ok::<UpdateView, IngestErrorView>(
                    #[trigger] rows_updates(rows, feed)->Ok_0[i],
                ) == row_update(rows[i], feed)
        },
    decreases rows.len(),
{
    if rows.len() > 0 {
        let rest = rows.drop_last();
        lemma_rows_read_one_by_one(rest, feed);
        if rows_updates(rows, feed) is Ok {
            assert forall|i: int| 0 <= i < rows.len() implies row_update(
                #[trigger] rows[i],
                feed,
            ) is Ok by {
                if i < rest.len() {
                    assert(rest[i] == rows[i]);
                }
            }
        }
        if forall|i: int| 0 <= i < rows.len() ==> row_update(#[trigger] rows[i], feed) is Ok {
            assert forall|i: int| 0 <= i < rest.len() implies row_update(
                #[trigger] rest[i],
                feed,
            ) is Ok by {
                assert(rest[i] == rows[i]);
            }
            assert(row_update(rows[rows.len() - 1], feed) is Ok);
        }
    }
}

/// A stretch of rows that can all be read gives the same stretch of the
/// updates.
pub proof fn lemma_rows_read_in_stretches(
    rows: Seq<Seq<FieldView>>,
    feed: Feed,
    from: int,
    to: int,
)
    requires
        0 <= from <= to <= rows.len(),
        rows_updates(rows, feed) is Ok,
    ensures
        rows_updates(rows.subrange(from, to), feed) == Ok::<Seq<UpdateView>, IngestErrorView>(
            rows_updates(rows, feed)->Ok_0.subrange(from, to),
        ),
{
    let part = rows.subrange(from, to);
    lemma_rows_read_one_by_one(rows, feed);
    assert forall|i: int| 0 <= i < part.len() implies row_update(#[trigger] part[i], feed) is Ok by {
        assert(part[i] == rows[from + i]);
    }
    lemma_rows_read_one_by_one(part, feed);
    let got = rows_updates(part, feed)->Ok_0;
    let all = rows_updates(rows, feed)->Ok_0;
    assert forall|i: int| 0 <= i < got.len() implies got[i] == all.subrange(from, to)[i] by {
        assert(part[i] == rows[from + i]);
        assert(Ok::<UpdateView, IngestErrorView>(got[i]) == row_update(part[i], feed));
        assert(Ok::<UpdateView, IngestErrorView>(all[from + i]) == row_update(
            rows[from + i],
            feed,
        ));
    }
    assert(got =~= all.subrange(from, to));
}

} // verus!
