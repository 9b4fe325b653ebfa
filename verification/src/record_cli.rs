use vstd::prelude::*;
use vstd::string::*;

use crate::text::push_str;

verus! {

/// The lines that list records, one `#(id): data` line per record, in order.
pub open spec fn rows_text(rows: Seq<(Seq<char>, Seq<char>)>) -> Seq<char>
    decreases rows.len(),
{
    if rows.len() == 0 {
        Seq::empty()
    } else {
        rows_text(rows.drop_last()) + "#("@ + rows.last().0 + "): "@ + rows.last().1 + "\n"@
    }
}

/// What listing records prints: `<None>` when there are none, otherwise
/// their lines.
pub open spec fn list_text(rows: Seq<(Seq<char>, Seq<char>)>) -> Seq<char> {
    if rows.len() == 0 {
        "<None>\n"@
    } else {
        rows_text(rows)
    }
}

/// The records shown as (identifier, data) texts.
pub open spec fn row_views(rows: Seq<(String, String)>) -> Seq<(Seq<char>, Seq<char>)> {
    rows.map_values(|r: (String, String)| (r.0@, r.1@))
}

/// The output of listing the records shown as `rows`.
pub fn list_output(rows: &Vec<(String, String)>) -> (s: String)
    ensures
        s@ == list_text(row_views(rows@)),
{
    if rows.len() == 0 {
        return String::from_str("<None>\n");
    }
    let ghost all = row_views(rows@);
    let mut s = String::new();
    let mut i: usize = 0;
    assert(all.take(0) =~= Seq::<(Seq<char>, Seq<char>)>::empty());
    while i < rows.len()
        invariant
            i <= rows@.len(),
            all == row_views(rows@),
            s@ == rows_text(all.take(i as int)),
        decreases rows.len() - i,
    {
        let (id, data) = &rows[i];
        push_str(&mut s, "#(");
        push_str(&mut s, id.as_str());
        push_str(&mut s, "): ");
        push_str(&mut s, data.as_str());
        push_str(&mut s, "\n");
        proof {
            assert(all.take(i + 1).drop_last() =~= all.take(i as int));
            assert(all[i as int] == (id@, data@));
        }
        i = i + 1;
    }
    assert(all.take(rows@.len() as int) =~= all);
    s
}

/// The output after creating a record in `table`.
pub fn created_output(table: &str) -> (s: String)
    ensures
        s@ == "Created "@ + table@ + "\n"@,
{
    let mut s = String::from_str("Created ");
    push_str(&mut s, table);
    push_str(&mut s, "\n");
    s
}

} // verus!
