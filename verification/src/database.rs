//! MySQL: quoting of names, what a query is, and how results are shaped.

use vstd::prelude::*;
use crate::text::{chars_of, push_str, starts_with, starts_with_exec, trim, trim_bounds};
use crate::unicode::{to_uppercase, uppercase};

verus! {

/// The MySQL server used when none is given.
pub open spec fn local_mysql() -> Seq<char> {
    "127.0.0.1"@
}

/// MySQL's port when none is given.
pub const MYSQL_PORT: u16 = 3306;

/// The server to connect to: the given host and port, or the local server on
/// MySQL's port.
pub fn connection_target(host: Option<String>, port: Option<u16>) -> (r: (String, u16))
    ensures
        r.0@ == (match host {
            Some(h) => h@,
            None => local_mysql(),
        }),
        r.1 == (match port {
            Some(p) => p,
            None => MYSQL_PORT,
        }),
{
    let h = match host {
        Some(h) => h,
        None => String::from_str("127.0.0.1"),
    };
    let p = match port {
        Some(p) => p,
        None => MYSQL_PORT,
    };
    (h, p)
}

/// A character of an identifier inside backquotes: a backquote is doubled.
pub open spec fn escaped_char(c: char) -> Seq<char> {
    if c == '`' {
        seq!['`', '`']
    } else {
        seq![c]
    }
}

/// An identifier with each backquote doubled.
pub open spec fn escaped(s: Seq<char>) -> Seq<char>
    decreases s.len(),
{
    if s.len() == 0 {
        Seq::empty()
    } else {
        escaped(s.drop_last()) + escaped_char(s.last())
    }
}

/// An identifier as MySQL reads it between backquotes: doubled backquotes
/// stand for one.
pub open spec fn unescaped(t: Seq<char>) -> Seq<char>
    decreases t.len(),
{
    if t.len() == 0 {
        Seq::empty()
    } else if t.len() >= 2 && t.last() == '`' && t[t.len() - 2] == '`' {
        unescaped(t.take(t.len() - 2)).push('`')
    } else {
        unescaped(t.drop_last()).push(t.last())
    }
}

/// An identifier quoted for MySQL: in backquotes, with backquotes doubled.
pub open spec fn quoted(s: Seq<char>) -> Seq<char> {
    seq!['`'] + escaped(s) + seq!['`']
}

/// Quotes a database or table name for use in a statement (see `quoted`).
pub fn quote_identifier(identifier: &str) -> (r: String)
    ensures
        r@ == quoted(identifier@),
{
    let v = chars_of(identifier);
    let mut r = String::from_str("`");
    let ghost r0 = r@;
    proof {
        reveal_strlit("`");
    }
    assert(v@.take(0) =~= Seq::<char>::empty());
    let mut i: usize = 0;
    while i < v.len()
        invariant
            i <= v@.len(),
            r0 == seq!['`'],
            r@ == r0 + escaped(v@.take(i as int)),
        decreases v@.len() - i,
    {
        let c = v[i];
        proof {
            assert(v@.take(i + 1).drop_last() =~= v@.take(i as int));
            assert(v@.take(i + 1).last() == c);
        }
        if c == '`' {
            r.append("``");
            proof {
                reveal_strlit("``");
            }
        } else {
            crate::text::push(&mut r, c);
        }
        assert(r@ =~= r0 + escaped(v@.take(i + 1)));
        i = i + 1;
    }
    assert(v@.take(v@.len() as int) =~= v@);
    r.append("`");
    proof {
        reveal_strlit("`");
        reveal_strlit("``");
    }
    assert(r@ =~= quoted(identifier@));
    r
}

/// Reading a quoted identifier back gives the identifier.
pub proof fn law_quote_round_trip(s: Seq<char>)
    ensures
        unescaped(escaped(s)) == s,
        quoted(s).len() >= 2,
        quoted(s)[0] == '`',
        quoted(s).last() == '`',
        quoted(s).subrange(1, quoted(s).len() - 1) == escaped(s),
    decreases s.len(),
{
    if s.len() > 0 {
        law_quote_round_trip(s.drop_last());
        let e = escaped(s);
        let p = escaped(s.drop_last());
        if s.last() == '`' {
            assert(e.take(e.len() - 2) =~= p);
        } else {
            assert(e.drop_last() =~= p);
        }
        assert(s.drop_last().push(s.last()) =~= s);
    }
    assert(quoted(s).subrange(1, quoted(s).len() - 1) =~= escaped(s));
}

/// The statement listing the tables of `database`.
pub fn show_tables_query(database: &str) -> (r: String)
    ensures
        r@ == "SHOW TABLES FROM "@ + quoted(database@),
{
    let mut r = String::from_str("SHOW TABLES FROM ");
    let q = quote_identifier(database);
    r.append(q.as_str());
    r
}

/// The statement that shows how `table` of `database` is created.
pub fn show_create_query(database: &str, table: &str) -> (r: String)
    ensures
        r@ == "SHOW CREATE TABLE "@ + quoted(database@) + "."@ + quoted(table@),
{
    let mut r = String::from_str("SHOW CREATE TABLE ");
    let q = quote_identifier(database);
    r.append(q.as_str());
    r.append(".");
    let t = quote_identifier(table);
    r.append(t.as_str());
    r
}

/// MySQL's own schemas, which are not listed.
pub open spec fn is_system_schema(name: Seq<char>) -> bool {
    name == "information_schema"@ || name == "performance_schema"@ || name == "sys"@
}

/// The databases to list: those that are not MySQL's own, in order.
pub open spec fn user_databases_of(names: Seq<Seq<char>>) -> Seq<Seq<char>> {
    names.filter(|n: Seq<char>| !is_system_schema(n))
}

/// The databases kept by `user_databases_of` are the server's, without its
/// own schemas.
proof fn lemma_user_databases_contains(names: Seq<Seq<char>>, n: Seq<char>)
    ensures
        user_databases_of(names).contains(n) <==> (names.contains(n) && !is_system_schema(n)),
    decreases names.len(),
{
    reveal(Seq::filter);
    if names.len() > 0 {
        let init = names.drop_last();
        lemma_user_databases_contains(init, n);
        let sub = user_databases_of(init);
        let last = names.last();
        if user_databases_of(names).contains(n) {
            let i = choose|i: int| 0 <= i < user_databases_of(names).len() && user_databases_of(names)[i] == n;
            if i < sub.len() {
                assert(user_databases_of(names)[i] == sub[i]);
                let j = choose|j: int| 0 <= j < init.len() && init[j] == n;
                assert(names[j] == init[j]);
            } else {
                assert(names[names.len() - 1] == last);
            }
        }
        if names.contains(n) && !is_system_schema(n) {
            let j = choose|j: int| 0 <= j < names.len() && names[j] == n;
            if j < init.len() {
                assert(init[j] == names[j]);
                let i = choose|i: int| 0 <= i < sub.len() && sub[i] == n;
                assert(user_databases_of(names)[i] == sub[i]);
            } else {
                assert(user_databases_of(names)[sub.len() as int] == last);
            }
        }
    }
}

/// Law: the databases listed are exactly the server's databases other than
/// `information_schema`, `performance_schema` and `sys`.
pub proof fn law_user_databases(names: Seq<Seq<char>>, n: Seq<char>)
    ensures
        user_databases_of(names).contains(n) <==> (names.contains(n) && n != "information_schema"@
            && n != "performance_schema"@ && n != "sys"@),
{
    lemma_user_databases_contains(names, n);
}

/// The databases of the server that are not MySQL's own (see
/// `user_databases_of`).
pub fn user_databases(names: Vec<String>) -> (r: Vec<String>)
    ensures
        r@.map_values(|s: String| s@) == user_databases_of(names@.map_values(|s: String| s@)),
{
    let ghost nv = names@.map_values(|s: String| s@);
    let mut r: Vec<String> = Vec::new();
    let mut names = names;
    let ghost all = names@;
    let mut i: usize = 0;
    while i < names.len()
        invariant
            i <= names@.len(),
            names@ == all,
            nv == all.map_values(|s: String| s@),
            r@.map_values(|s: String| s@) == user_databases_of(nv.take(i as int)),
        decreases names@.len() - i,
    {
        let n = chars_of(names[i].as_str());
        let system = crate::text::chars_eq(&n, &chars_of("information_schema"))
            || crate::text::chars_eq(&n, &chars_of("performance_schema"))
            || crate::text::chars_eq(&n, &chars_of("sys"));
        proof {
            assert(nv.take(i + 1).drop_last() =~= nv.take(i as int));
            assert(nv.take(i + 1).last() == n@);
            assert(user_databases_of(nv.take(i + 1)) == (if !is_system_schema(n@) {
                user_databases_of(nv.take(i as int)).push(n@)
            } else {
                user_databases_of(nv.take(i as int))
            })) by {
                reveal(Seq::filter);
            }
        }
        if !system {
            let ghost before = r@;
            r.push(names[i].clone());
            assert(r@.map_values(|s: String| s@) =~= before.map_values(|s: String| s@).push(n@));
        }
        i = i + 1;
    }
    assert(nv.take(nv.len() as int) =~= nv);
    r
}

/// A query that returns rows: its trimmed, upper-cased text starts with
/// `SELECT`, `SHOW`, `DESC` or `EXPLAIN`.
pub open spec fn returns_rows(query: Seq<char>) -> bool {
    let u = uppercase(trim(query));
    starts_with(u, "SELECT"@) || starts_with(u, "SHOW"@) || starts_with(u, "DESC"@) || starts_with(
        u,
        "EXPLAIN"@,
    )
}

/// Whether `query` returns rows (see `returns_rows`).
pub fn is_row_query(query: &str) -> (r: bool)
    ensures
        r == returns_rows(query@),
{
    let v = chars_of(query);
    let (a, b) = trim_bounds(&v);
    let t = crate::text::string_of_range(&v, a, b);
    let upper = to_uppercase(t.as_str());
    let u = chars_of(upper.as_str());
    starts_with_exec(&u, &chars_of("SELECT")) || starts_with_exec(&u, &chars_of("SHOW"))
        || starts_with_exec(&u, &chars_of("DESC")) || starts_with_exec(&u, &chars_of("EXPLAIN"))
}

/// The result of a query: its columns and rows (each row the value of each
/// column, in column order), or the number of rows a statement changed.
pub struct QueryResult {
    pub columns: Vec<String>,
    pub rows: Vec<Vec<(String, String)>>,
    pub affected_rows: u64,
}

/// A row as shown: each column with the row's value in it, empty when the
/// value is NULL or missing.
pub open spec fn row_of(columns: Seq<Seq<char>>, cells: Seq<Option<Seq<char>>>) -> Seq<(Seq<char>, Seq<char>)> {
    Seq::new(
        columns.len(),
        |i: int|
            (
                columns[i],
                if i < cells.len() {
                    match cells[i] {
                        Some(v) => v,
                        None => Seq::empty(),
                    }
                } else {
                    Seq::empty()
                },
            ),
    )
}

pub open spec fn pair_views(row: Seq<(String, String)>) -> Seq<(Seq<char>, Seq<char>)> {
    row.map_values(|p: (String, String)| (p.0@, p.1@))
}

pub open spec fn cell_views(cells: Seq<Option<String>>) -> Seq<Option<Seq<char>>> {
    cells.map_values(|c: Option<String>| crate::deployment::meta::opt_view(c))
}

/// The shown row for the `cells` of one row under `columns` (see `row_of`).
pub fn row_values(columns: &Vec<String>, cells: &Vec<Option<String>>) -> (r: Vec<(String, String)>)
    ensures
        pair_views(r@) == row_of(columns@.map_values(|s: String| s@), cell_views(cells@)),
{
    let ghost cv = columns@.map_values(|s: String| s@);
    let mut r: Vec<(String, String)> = Vec::new();
    let mut i: usize = 0;
    while i < columns.len()
        invariant
            i <= columns@.len(),
            cv == columns@.map_values(|s: String| s@),
            r@.len() == i,
            forall|j: int|
                0 <= j < i ==> (#[trigger] pair_views(r@)[j]) == row_of(cv, cell_views(cells@))[j],
        decreases columns@.len() - i,
    {
        let value = if i < cells.len() {
            match &cells[i] {
                Some(v) => v.clone(),
                None => String::new(),
            }
        } else {
            String::new()
        };
        let ghost before = r@;
        r.push((columns[i].clone(), value));
        proof {
            assert forall|j: int| 0 <= j < i + 1 implies (#[trigger] pair_views(r@)[j]) == row_of(
                cv,
                cell_views(cells@),
            )[j] by {
                if j < i {
                    assert(r@[j] == before[j]);
                    assert(pair_views(before)[j] == pair_views(r@)[j]);
                }
            }
        }
        i = i + 1;
    }
    assert(pair_views(r@) =~= row_of(cv, cell_views(cells@)));
    r
}

/// The result of a query that returned rows: the columns of its first row
/// (none when there is no row) and every row under them.
pub fn select_result(columns: Vec<String>, rows: &Vec<Vec<Option<String>>>) -> (r: QueryResult)
    ensures
        r.columns@.map_values(|s: String| s@) == (if rows@.len() == 0 {
            Seq::<Seq<char>>::empty()
        } else {
            columns@.map_values(|s: String| s@)
        }),
        r.rows@.len() == rows@.len(),
        forall|k: int|
            0 <= k < rows@.len() ==> pair_views((#[trigger] r.rows@[k])@) == row_of(
                r.columns@.map_values(|s: String| s@),
                cell_views(rows@[k]@),
            ),
        r.affected_rows == 0,
{
    let columns = if rows.len() == 0 {
        Vec::new()
    } else {
        columns
    };
    proof {
        if rows@.len() == 0 {
            assert(columns@.map_values(|s: String| s@) =~= Seq::<Seq<char>>::empty());
        }
    }
    let mut out: Vec<Vec<(String, String)>> = Vec::new();
    let mut k: usize = 0;
    while k < rows.len()
        invariant
            k <= rows@.len(),
            out@.len() == k,
            forall|j: int|
                0 <= j < k ==> pair_views((#[trigger] out@[j])@) == row_of(
                    columns@.map_values(|s: String| s@),
                    cell_views(rows@[j]@),
                ),
        decreases rows@.len() - k,
    {
        out.push(row_values(&columns, &rows[k]));
        k = k + 1;
    }
    QueryResult { columns, rows: out, affected_rows: 0 }
}

/// The result of a statement that changed `affected_rows` rows.
pub fn statement_result(affected_rows: u64) -> (r: QueryResult)
    ensures
        r.columns@.len() == 0,
        r.rows@.len() == 0,
        r.affected_rows == affected_rows,
{
    QueryResult { columns: Vec::new(), rows: Vec::new(), affected_rows }
}

/// The text of an export of `database`: a header, then each table's
/// `CREATE TABLE` statement that could be read, each closed by `;` and a
/// blank line.
pub open spec fn export_text(database: Seq<char>, statements: Seq<Option<Seq<char>>>) -> Seq<char>
    decreases statements.len(),
{
    if statements.len() == 0 {
        "-- Export of database: "@ + database + "\n\n"@
    } else {
        export_text(database, statements.drop_last()) + match statements.last() {
            Some(s) => s + ";\n\n"@,
            None => Seq::empty(),
        }
    }
}

/// The export of `database` from the `CREATE TABLE` statements of its tables
/// (see `export_text`).
pub fn export_database(database: &str, statements: &Vec<Option<String>>) -> (r: String)
    ensures
        r@ == export_text(database@, cell_views(statements@)),
{
    let mut r = String::from_str("-- Export of database: ");
    r.append(database);
    r.append("\n\n");
    let ghost sv = cell_views(statements@);
    let mut i: usize = 0;
    while i < statements.len()
        invariant
            i <= statements@.len(),
            sv == cell_views(statements@),
            r@ == export_text(database@, sv.take(i as int)),
        decreases statements@.len() - i,
    {
        proof {
            assert(sv.take(i + 1).drop_last() =~= sv.take(i as int));
            assert(sv.take(i + 1).last() == sv[i as int]);
        }
        match &statements[i] {
            Some(s) => {
                r.append(s.as_str());
                r.append(";\n\n");
            },
            None => {},
        }
        i = i + 1;
    }
    assert(sv.take(sv.len() as int) =~= sv);
    r
}

} // verus!
