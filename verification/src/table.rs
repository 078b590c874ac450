//! Tables rendered by the `tabled` crate in its "modern" style.

use tabled::builder::Builder;
use tabled::settings::Style;
use vstd::prelude::*;

verus! {

/// `tabled::builder::Builder`, a list of records that becomes a table.
#[verifier::external_type_specification]
#[verifier::external_body]
pub struct ExBuilder(Builder);

/// The records that a builder holds, each a list of cell texts.
pub uninterp spec fn builder_records(b: Builder) -> Seq<Seq<Seq<char>>>;

/// The number of columns that a builder holds its records at: every record
/// it takes in is padded with empty cells up to this width.
pub uninterp spec fn builder_width(b: Builder) -> nat;

/// The text of the table that `tabled` draws, in `Style::modern()`, for the
/// given records.
pub uninterp spec fn modern_table(records: Seq<Seq<Seq<char>>>) -> Seq<char>;

/// The cell texts of a record.
pub open spec fn record_view(r: Seq<String>) -> Seq<Seq<char>> {
    r.map_values(|s: String| s@)
}

/// The cell texts of a list of records.
pub open spec fn records_view(rows: Seq<Vec<String>>) -> Seq<Seq<Seq<char>>> {
    rows.map_values(|r: Vec<String>| record_view(r@))
}

/// Whether every record of `rows` has `n` cells.
pub open spec fn all_width(rows: Seq<Seq<Seq<char>>>, n: nat) -> bool {
    forall|i: int| 0 <= i < rows.len() ==> #[trigger] rows[i].len() == n
}

/// Whether all records have the same number of cells.
pub open spec fn uniform(rows: Seq<Seq<Seq<char>>>) -> bool {
    forall|i: int, j: int|
        0 <= i < rows.len() && 0 <= j < rows.len() ==> #[trigger] rows[i].len()
            == #[trigger] rows[j].len()
}

/// `Builder::default`: a builder that holds no record, with no columns.
#[verifier::external_body]
fn new_builder() -> (b: Builder)
    ensures
        builder_records(b) == Seq::<Seq<Seq<char>>>::empty(),
        builder_width(b) == 0,
{
    Builder::default()
}

/// `Builder::push_record`: appends the record at the end, and the width
/// becomes the larger of the old width and the record's length. The records
/// are stated where no padding happens: the record is exactly as wide as the
/// builder and its records, or the builder holds no record yet and is not
/// wider than the record. (Otherwise the shorter side is padded with empty
/// cells; that case is left unsaid.)
#[verifier::external_body]
fn push_record(b: &mut Builder, record: Vec<String>)
    ensures
        builder_width(*final(b)) == if builder_width(*old(b)) < record@.len() {
            record@.len()
        } else {
            builder_width(*old(b))
        },
        (builder_width(*old(b)) == record@.len() && all_width(
            builder_records(*old(b)),
            record@.len(),
        )) || (builder_records(*old(b)).len() == 0 && builder_width(*old(b)) <= record@.len())
            ==> builder_records(*final(b)) == builder_records(*old(b)).push(record_view(record@)),
{
    b.push_record(record)
}

/// `Builder::build`, then `Table::with(Style::modern())`, displayed: the
/// table drawn from the builder's records.
#[verifier::external_body]
fn render_modern(b: Builder) -> (r: String)
    ensures
        r@ == modern_table(builder_records(b)),
{
    b.build().with(Style::modern()).to_string()
}

fn clone_record(r: &Vec<String>) -> (c: Vec<String>)
    ensures
        record_view(c@) == record_view(r@),
        c@.len() == r@.len(),
{
    let mut c: Vec<String> = Vec::new();
    let mut i: usize = 0;
    while i < r.len()
        invariant
            i <= r@.len(),
            c@.len() == i,
            forall|j: int| 0 <= j < i ==> #[trigger] c@[j]@ == r@[j]@,
        decreases r@.len() - i,
    {
        let x = r[i].clone();
        c.push(x);
        i = i + 1;
    }
    assert(record_view(c@) =~= record_view(r@));
    c
}

/// The table drawn, in the modern style, from `rows`, which all have the
/// same number of cells.
pub(crate) fn render_table(rows: &Vec<Vec<String>>) -> (r: String)
    requires
        uniform(records_view(rows@)),
    ensures
        r@ == modern_table(records_view(rows@)),
{
    let mut b = new_builder();
    let ghost all = records_view(rows@);
    let total = rows.len();
    let mut i: usize = 0;
    while i < total
        invariant
            total == all.len(),
            all == records_view(rows@),
            i <= total,
            builder_records(b) == all.take(i as int),
            builder_width(b) == if i == 0 {
                0
            } else {
                all[0].len()
            },
            uniform(all),
        decreases total - i,
    {
        let row = clone_record(&rows[i]);
        assert(all[i as int] == record_view(rows@[i as int]@));
        assert(all[i as int].len() == row@.len());
        assert(all[0].len() == row@.len());
        assert(all_width(all.take(i as int), row@.len())) by {
            assert forall|j: int| 0 <= j < i implies #[trigger] all.take(i as int)[j].len()
                == row@.len() by {
                assert(all.take(i as int)[j] == all[j]);
            }
        }
        push_record(&mut b, row);
        assert(all.take(i + 1) =~= all.take(i as int).push(all[i as int]));
        i = i + 1;
    }
    assert(all.take(total as int) =~= all);
    render_modern(b)
}

} // verus!
