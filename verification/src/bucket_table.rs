//! The table of buckets that fills in its regions as they arrive. Each region
//! is looked up on its own; every answer is applied by the table's one owner,
//! one after the other, so that none is lost.

use vstd::prelude::*;
use crate::item::StorageItem;
use crate::text::{copy_optional, optional_text};

verus! {

/// A bucket as the table shows it: its name, and its region once known.
#[derive(Debug, PartialEq)]
pub struct Bucket {
    pub name: String,
    pub region: Option<String>,
}

/// What a [`Bucket`] holds, as plain values.
pub struct BucketView {
    pub name: Seq<char>,
    pub region: Option<Seq<char>>,
}

impl View for Bucket {
    type V = BucketView;

    open spec fn view(&self) -> BucketView {
        BucketView { name: self.name@, region: optional_text(self.region) }
    }
}

impl Clone for Bucket {
    fn clone(&self) -> (copy: Self)
        ensures
            copy == *self,
    {
        Bucket { name: self.name.clone(), region: copy_optional(&self.region) }
    }
}

/// The views of a run of buckets, in order.
pub open spec fn bucket_views(buckets: Seq<Bucket>) -> Seq<BucketView> {
    Seq::new(buckets.len(), |i: int| buckets[i]@)
}

/// The table for the entries of a listing of buckets: one row for each, by its
/// name, with the region still to come.
pub open spec fn table_of(names: Seq<Seq<char>>) -> Seq<BucketView> {
    Seq::new(names.len(), |i: int| BucketView { name: names[i], region: None })
}

/// The names of the rows whose region is not known, in order.
pub open spec fn unresolved(table: Seq<BucketView>) -> Seq<Seq<char>>
    decreases table.len(),
{
    if table.len() == 0 {
        Seq::empty()
    } else if table.last().region is None {
        unresolved(table.drop_last()).push(table.last().name)
    } else {
        unresolved(table.drop_last())
    }
}

/// Where the first row with the name `name` stands.
pub open spec fn row_of(table: Seq<BucketView>, name: Seq<char>) -> Option<int>
    decreases table.len(),
{
    if table.len() == 0 {
        None
    } else if table.first().name == name {
        Some(0)
    } else {
        match row_of(table.drop_first(), name) {
            Some(at) => Some(at + 1),
            None => None,
        }
    }
}

/// The texts of the answer to a lookup.
pub open spec fn answer_text(answer: Result<String, String>) -> Result<Seq<char>, Seq<char>> {
    match answer {
        Ok(region) => Ok(region@),
        Err(message) => Err(message@),
    }
}

/// What the table shows for the answer to a lookup: the region, or the word
/// `Error` where the lookup failed.
pub open spec fn shown_region(answer: Result<Seq<char>, Seq<char>>) -> Seq<char> {
    match answer {
        Ok(region) => region,
        Err(_) => "Error"@,
    }
}

/// The table after the region `region` was written into the first row with
/// the name `name`. A table without such a row stays as it is.
pub open spec fn with_region(table: Seq<BucketView>, name: Seq<char>, region: Seq<char>) -> Seq<
    BucketView,
> {
    match row_of(table, name) {
        Some(at) => table.update(at, BucketView { name, region: Some(region) }),
        None => table,
    }
}

/// The row of a name is the first row that has it; a name without a row is
/// the name of none.
pub proof fn lemma_row_of(table: Seq<BucketView>, name: Seq<char>)
    ensures
        match row_of(table, name) {
            Some(at) => {
                &&& 0 <= at < table.len()
                &&& table[at].name == name
                &&& forall|i: int| 0 <= i < at ==> (#[trigger] table[i]).name != name
            },
            None => forall|i: int| 0 <= i < table.len() ==> (#[trigger] table[i]).name != name,
        },
    decreases table.len(),
{
    if table.len() > 0 && table.first().name != name {
        let rest = table.drop_first();
        lemma_row_of(rest, name);
        match row_of(rest, name) {
            Some(at) => {
                assert(table[at + 1] == rest[at]);
                assert forall|i: int| 0 <= i < at + 1 implies (#[trigger] table[i]).name != name by {
                    if i > 0 {
                        assert(table[i] == rest[i - 1]);
                    }
                }
            },
            None => {
                assert forall|i: int| 0 <= i < table.len() implies (#[trigger] table[i]).name
                    != name by {
                    if i > 0 {
                        assert(table[i] == rest[i - 1]);
                    }
                }
            },
        }
    }
}

/// A first row is a first row: where the row of `name` is known by what
/// [`lemma_row_of`] states, it is the row that [`row_of`] gives.
proof fn lemma_row_of_is(table: Seq<BucketView>, name: Seq<char>, at: int)
    requires
        0 <= at < table.len(),
        table[at].name == name,
        forall|i: int| 0 <= i < at ==> (#[trigger] table[i]).name != name,
    ensures
        row_of(table, name) == Some(at),
{
    lemma_row_of(table, name);
}

/// The regions of two buckets with different names can be written in either
/// order: the table is the same, and neither region is lost.
pub proof fn lemma_regions_commute(
    table: Seq<BucketView>,
    first: Seq<char>,
    first_region: Seq<char>,
    second: Seq<char>,
    second_region: Seq<char>,
)
    requires
        first != second,
    ensures
        with_region(with_region(table, first, first_region), second, second_region) == with_region(
            with_region(table, second, second_region),
            first,
            first_region,
        ),
{
    lemma_row_of(table, first);
    lemma_row_of(table, second);
    let one = with_region(table, first, first_region);
    let other = with_region(table, second, second_region);
    assert(row_of(one, second) == row_of(table, second)) by {
        lemma_row_of(one, second);
        match row_of(table, second) {
            Some(at) => {
                assert forall|i: int| 0 <= i < at implies (#[trigger] one[i]).name != second by {
                    assert(table[i].name != second);
                }
                lemma_row_of_is(one, second, at);
            },
            None => {
                if row_of(one, second) is Some {
                    let at = row_of(one, second)->0;
                    assert(table[at].name != second);
                }
            },
        }
    }
    assert(row_of(other, first) == row_of(table, first)) by {
        lemma_row_of(other, first);
        match row_of(table, first) {
            Some(at) => {
                assert forall|i: int| 0 <= i < at implies (#[trigger] other[i]).name != first by {
                    assert(table[i].name != first);
                }
                lemma_row_of_is(other, first, at);
            },
            None => {
                if row_of(other, first) is Some {
                    let at = row_of(other, first)->0;
                    assert(table[at].name != first);
                }
            },
        }
    }
    assert(with_region(one, second, second_region) =~= with_region(other, first, first_region));
}

/// The table for the bucket entries `items`: one row for each, by the name of
/// the entry, with the region still to come.
pub fn buckets_of(items: &Vec<StorageItem>) -> (table: Vec<Bucket>)
    ensures
        bucket_views(table@) == table_of(
            Seq::new(items@.len(), |i: int| items@[i].file_info.file_name@),
        ),
{
    let mut table: Vec<Bucket> = Vec::new();
    let mut index: usize = 0;
    while index < items.len()
        invariant
            index <= items.len(),
            table.len() == index,
            forall|i: int|
                0 <= i < index ==> (#[trigger] table@[i])@ == (BucketView {
                    name: items@[i].file_info.file_name@,
                    region: None,
                }),
        decreases items.len() - index,
    {
        table.push(Bucket { name: items[index].file_info.file_name.clone(), region: None });
        index = index + 1;
    }
    assert(bucket_views(table@) =~= table_of(
        Seq::new(items@.len(), |i: int| items@[i].file_info.file_name@),
    ));
    table
}

/// The names of the buckets whose region has to be looked up, in the order
/// of the table.
pub fn regions_to_fetch(table: &Vec<Bucket>) -> (names: Vec<String>)
    ensures
        Seq::new(names@.len(), |i: int| names@[i]@) == unresolved(bucket_views(table@)),
{
    let mut names: Vec<String> = Vec::new();
    let mut index: usize = 0;
    assert(Seq::new(names@.len(), |i: int| names@[i]@) =~= unresolved(
        bucket_views(table@).take(0),
    ));
    while index < table.len()
        invariant
            index <= table.len(),
            Seq::new(names@.len(), |i: int| names@[i]@) == unresolved(
                bucket_views(table@).take(index as int),
            ),
        decreases table.len() - index,
    {
        proof {
            let longer = bucket_views(table@).take(index + 1);
            assert(longer.drop_last() =~= bucket_views(table@).take(index as int));
            assert(longer.last() == table@[index as int]@);
        }
        if table[index].region.is_none() {
            let ghost before = Seq::new(names@.len(), |i: int| names@[i]@);
            names.push(table[index].name.clone());
            assert(Seq::new(names@.len(), |i: int| names@[i]@) =~= before.push(
                table@[index as int].name@,
            ));
        }
        index = index + 1;
    }
    assert(bucket_views(table@).take(index as int) =~= bucket_views(table@));
    names
}

/// Writes the answer to the lookup of a bucket's region into the table: into
/// the first row with that name goes the region, or `Error` where the lookup
/// failed. Every other row stays as it is.
pub fn record_region(table: &mut Vec<Bucket>, name: &str, answer: Result<String, String>)
    ensures
        bucket_views(final(table)@) == with_region(
            bucket_views(old(table)@),
            name@,
            shown_region(answer_text(answer)),
        ),
{
    let ghost shown = shown_region(answer_text(answer));
    let region = match answer {
        Ok(region) => region,
        Err(_) => "Error".to_owned(),
    };
    let wanted = name.to_owned();
    let mut index: usize = 0;
    while index < table.len()
        invariant
            index <= table.len(),
            *table == *old(table),
            wanted@ == name@,
            region@ == shown,
            shown == shown_region(answer_text(answer)),
            forall|i: int| 0 <= i < index ==> (#[trigger] table@[i]).name@ != name@,
        decreases table.len() - index,
    {
        if table[index].name == wanted {
            let ghost before = bucket_views(table@);
            table.set(index, Bucket { name: wanted, region: Some(region) });
            proof {
                assert(before == bucket_views(old(table)@));
                assert forall|i: int| 0 <= i < index implies (#[trigger] before[i]).name != name@ by {
                    assert(old(table)@[i].name@ != name@);
                }
                lemma_row_of_is(before, name@, index as int);
                assert(bucket_views(table@) =~= before.update(
                    index as int,
                    BucketView { name: name@, region: Some(region@) },
                ));
            }
            return ;
        }
        index = index + 1;
    }
    proof {
        let before = bucket_views(table@);
        lemma_row_of(before, name@);
        if row_of(before, name@) is Some {
            let at = row_of(before, name@)->0;
            assert(table@[at].name@ != name@);
        }
    }
}

} // verus!
