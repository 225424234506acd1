use vstd::prelude::*;

verus! {

/// `items` joined, with `sep` between neighbours.
pub open spec fn joined(items: Seq<Seq<char>>, sep: Seq<char>) -> Seq<char>
    decreases items.len(),
{
    if items.len() == 0 {
        Seq::empty()
    } else if items.len() == 1 {
        items[0]
    } else {
        joined(items.drop_last(), sep) + sep + items.last()
    }
}

pub open spec fn names(columns: Seq<&str>) -> Seq<Seq<char>> {
    columns.map_values(|c: &str| c@)
}

/// `column = ?` for each column: each value is bound as a parameter.
pub open spec fn assignments(columns: Seq<&str>) -> Seq<Seq<char>> {
    columns.map_values(|c: &str| c@ + " = ?"@)
}

/// One `?` for each column.
pub open spec fn placeholders(columns: Seq<&str>) -> Seq<Seq<char>> {
    columns.map_values(|c: &str| "?"@)
}

pub open spec fn insert_text(table: Seq<char>, columns: Seq<&str>) -> Seq<char> {
    "INSERT INTO "@ + table + " ("@ + joined(names(columns), ", "@) + ") VALUES ("@ + joined(
        placeholders(columns),
        ", "@,
    ) + ")"@
}

pub open spec fn update_text(table: Seq<char>, columns: Seq<&str>) -> Seq<char> {
    "UPDATE "@ + table + " SET "@ + joined(assignments(columns), ", "@) + " WHERE uuid = ?"@
}

/// Appends the items of `items` to `s`, `sep` between neighbours.
fn append_joined(s: &mut String, items: &Vec<&str>, sep: &str, suffix: &str)
    ensures
        final(s)@ == old(s)@ + joined(items@.map_values(|c: &str| c@ + suffix@), sep@),
{
    let ghost parts = items@.map_values(|c: &str| c@ + suffix@);
    let ghost start = s@;
    let mut i: usize = 0;
    while i < items.len()
        invariant
            0 <= i <= items@.len(),
            parts == items@.map_values(|c: &str| c@ + suffix@),
            s@ == start + joined(parts.take(i as int), sep@),
        decreases items@.len() - i,
    {
        assert(parts.take(i + 1).drop_last() =~= parts.take(i as int));
        if i > 0 {
            s.append(sep);
        }
        s.append(items[i]);
        s.append(suffix);
        proof {
            if i == 0 {
                assert(joined(parts.take(0), sep@) =~= Seq::empty());
            }
            assert(parts.take(i + 1).last() == items@[i as int]@ + suffix@);
        }
        assert(s@ =~= start + joined(parts.take(i + 1), sep@));
        i = i + 1;
    }
    assert(parts.take(i as int) =~= parts);
}

/// `INSERT INTO table (c1, c2) VALUES (?, ?)`: the values are bound as
/// parameters, in column order.
pub fn insert_statement(table: &str, columns: &Vec<&str>) -> (r: String)
    ensures
        r@ == insert_text(table@, columns@),
{
    let mut s = String::from_str("INSERT INTO ");
    s.append(table);
    s.append(" (");
    append_joined(&mut s, columns, ", ", "");
    assert(columns@.map_values(|c: &str| c@ + ""@) =~= names(columns@)) by {
        reveal_strlit("");
        assert forall|i: int| 0 <= i < columns@.len() implies columns@[i]@ + ""@ =~= columns@[i]@ by {}
    }
    s.append(") VALUES (");
    let mut marks: Vec<&str> = Vec::new();
    let mut i: usize = 0;
    while i < columns.len()
        invariant
            0 <= i <= columns@.len(),
            marks@.len() == i,
            forall|k: int| 0 <= k < i ==> (#[trigger] marks@[k])@ == "?"@,
        decreases columns@.len() - i,
    {
        marks.push("?");
        i = i + 1;
    }
    append_joined(&mut s, &marks, ", ", "");
    assert(marks@.map_values(|c: &str| c@ + ""@) =~= placeholders(columns@)) by {
        reveal_strlit("");
    }
    s.append(")");
    s
}

/// `UPDATE table SET c1 = ?, c2 = ? WHERE uuid = ?`: the new values are
/// bound as parameters, in column order, then the row's identifier.
pub fn update_statement(table: &str, columns: &Vec<&str>) -> (r: String)
    ensures
        r@ == update_text(table@, columns@),
{
    let mut s = String::from_str("UPDATE ");
    s.append(table);
    s.append(" SET ");
    append_joined(&mut s, columns, ", ", " = ?");
    assert(columns@.map_values(|c: &str| c@ + " = ?"@) =~= assignments(columns@));
    s.append(" WHERE uuid = ?");
    s
}

/// `SELECT * FROM table WHERE column = ?`: the value is bound as a
/// parameter.
pub fn select_where_statement(table: &str, column: &str) -> (r: String)
    ensures
        r@ == "SELECT * FROM "@ + table@ + " WHERE "@ + column@ + " = ?"@,
{
    let mut s = String::from_str("SELECT * FROM ");
    s.append(table);
    s.append(" WHERE ");
    s.append(column);
    s.append(" = ?");
    s
}

/// `SELECT * FROM table`, followed by `suffix` (an ordering, or nothing).
pub fn select_all_statement(table: &str, suffix: &str) -> (r: String)
    ensures
        r@ == "SELECT * FROM "@ + table@ + suffix@,
{
    let mut s = String::from_str("SELECT * FROM ");
    s.append(table);
    s.append(suffix);
    s
}

/// `DELETE FROM table WHERE uuid = ?`.
pub fn delete_statement(table: &str) -> (r: String)
    ensures
        r@ == "DELETE FROM "@ + table@ + " WHERE uuid = ?"@,
{
    let mut s = String::from_str("DELETE FROM ");
    s.append(table);
    s.append(" WHERE uuid = ?");
    s
}

/// `SELECT COUNT(*) as total_count FROM table`.
pub fn count_statement(table: &str) -> (r: String)
    ensures
        r@ == "SELECT COUNT(*) as total_count FROM "@ + table@,
{
    let mut s = String::from_str("SELECT COUNT(*) as total_count FROM ");
    s.append(table);
    s
}

} // verus!
