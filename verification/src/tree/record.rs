use vstd::prelude::*;

verus! {

/// One task as storage hands it over. Nothing about identity or uniqueness is
/// assumed of a sequence of records.
#[derive(Clone, Debug, PartialEq, Eq)]
pub struct TaskRecord {
    pub id: i64,
    pub name: String,
    pub complete: bool,
    pub parent: Option<i64>,
}

/// One display entry, computed afresh for every frame. It borrows its text
/// from the record it was made from.
#[derive(Clone, Copy, Debug, PartialEq, Eq)]
pub struct FlattenedItem<'a> {
    pub content: &'a str,
    pub id: i64,
    /// Columns of indentation: nesting level times the indent unit. The type
    /// is wide enough for any level times any unit.
    pub depth: u128,
    pub complete: bool,
}

/// What an item shows, with its text as a sequence of characters.
pub struct ItemView {
    pub content: Seq<char>,
    pub id: i64,
    pub depth: u128,
    pub complete: bool,
}

impl<'a> View for FlattenedItem<'a> {
    type V = ItemView;

    open spec fn view(&self) -> ItemView {
        ItemView {
            content: self.content@,
            id: self.id,
            depth: self.depth,
            complete: self.complete,
        }
    }
}

/// What a sequence of items shows.
pub open spec fn views_of<'a>(items: Seq<FlattenedItem<'a>>) -> Seq<ItemView> {
    Seq::new(items.len(), |i: int| items[i]@)
}

/// The parents of a sequence of records, in order.
pub open spec fn parents_of(records: Seq<TaskRecord>) -> Seq<Option<i64>> {
    Seq::new(records.len(), |i: int| records[i].parent)
}

impl ItemView {
    /// The item shows `record` at the given nesting `level`.
    pub open spec fn shows(self, record: TaskRecord, level: nat, indent_unit: nat) -> bool {
        &&& self.content == record.name@
        &&& self.id == record.id
        &&& self.complete == record.complete
        &&& self.depth == level * indent_unit
    }
}

} // verus!
