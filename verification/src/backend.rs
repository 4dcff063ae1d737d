use vstd::prelude::*;
use vstd::string::StringExecFns;

verus! {

/// The head of a statement that inserts rows into `table`: the table, and
/// the fields in brackets. The rows follow it.
pub open spec fn insert_head_text(table: Seq<char>, fields: Seq<char>) -> Seq<char> {
    "INSERT INTO "@ + table + " ("@ + fields + ") "@
}

/// Writes the head of an insert statement.
pub fn insert_head(table: &str, fields: &str) -> (head: String)
    ensures
        head@ == insert_head_text(table@, fields@),
{
    let mut head = String::new();
    head.append("INSERT INTO ");
    head.append(table);
    head.append(" (");
    head.append(fields);
    head.append(") ");
    head
}

} // verus!
