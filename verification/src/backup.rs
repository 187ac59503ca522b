//! The JSON backup: which tables it carries and in what order, reading a backup text into its
//! document, the rows of each table, the typed cells of a row, and writing a document.

use vstd::prelude::*;
use crate::json::{entry_from, field, get_field, json_text, json_tree, parse_json, write_json, Json};
use crate::text::{chars_of, extend_str, string_of};

verus! {

/// Number of tables a backup carries.
pub const BACKUP_TABLE_COUNT: usize = 16;

/// The tables of a backup, in the order they are written and restored (rows that refer to
/// another table come after it).
pub open spec fn table_name(i: int) -> Seq<char> {
    if i == 0 {
        "products"@
    } else if i == 1 {
        "seo_status"@
    } else if i == 2 {
        "sync_log"@
    } else if i == 3 {
        "settings"@
    } else if i == 4 {
        "chat_sessions"@
    } else if i == 5 {
        "work_events"@
    } else if i == 6 {
        "metric_snapshots"@
    } else if i == 7 {
        "metric_page_rows"@
    } else if i == 8 {
        "contacts"@
    } else if i == 9 {
        "contact_events"@
    } else if i == 10 {
        "contact_tags"@
    } else if i == 11 {
        "contact_products"@
    } else if i == 12 {
        "quotes"@
    } else if i == 13 {
        "quote_items"@
    } else if i == 14 {
        "quote_versions"@
    } else {
        "gemini_calls"@
    }
}

pub fn backup_table(i: usize) -> (r: &'static str)
    requires
        i < BACKUP_TABLE_COUNT,
    ensures
        r@ == table_name(i as int),
{
    if i == 0 {
        "products"
    } else if i == 1 {
        "seo_status"
    } else if i == 2 {
        "sync_log"
    } else if i == 3 {
        "settings"
    } else if i == 4 {
        "chat_sessions"
    } else if i == 5 {
        "work_events"
    } else if i == 6 {
        "metric_snapshots"
    } else if i == 7 {
        "metric_page_rows"
    } else if i == 8 {
        "contacts"
    } else if i == 9 {
        "contact_events"
    } else if i == 10 {
        "contact_tags"
    } else if i == 11 {
        "contact_products"
    } else if i == 12 {
        "quotes"
    } else if i == 13 {
        "quote_items"
    } else if i == 14 {
        "quote_versions"
    } else {
        "gemini_calls"
    }
}

/// A backup document: the JSON object read from or written to a backup file.
#[derive(Debug)]
pub struct BackupDoc {
    pub root: Json,
}

/// A text is a backup when it reads as a JSON object holding the products table.
pub open spec fn backup_shape_ok(t: Result<Json, Seq<char>>) -> bool {
    t matches Ok(Json::Obj(_)) && t matches Ok(j) && field(j, "products"@) is Some
}

/// Why a text is not a backup.
pub open spec fn backup_error(t: Result<Json, Seq<char>>) -> Seq<char> {
    match t {
        Err(e) => "JSON çözümlenemedi: "@ + e,
        Ok(Json::Obj(_)) => "Bu dosya geçerli bir SEO Yöneticisi yedeği değil."@,
        Ok(_) => "Beklenmeyen JSON biçimi."@,
    }
}

/// Reads a backup text: its JSON object, or why it is not a backup.
pub fn parse_backup(text: &str) -> (r: Result<BackupDoc, String>)
    ensures
        r is Err <==> !backup_shape_ok(json_tree(text@)),
        r matches Ok(d) ==> json_tree(text@) == Ok::<Json, Seq<char>>(d.root),
        r matches Err(e) ==> e@ == backup_error(json_tree(text@)),
{
    let j = match parse_json(text) {
        Ok(j) => j,
        Err(e) => {
            let mut m = chars_of("JSON çözümlenemedi: ");
            extend_str(&mut m, e.as_str());
            return Err(string_of(m.as_slice()));
        },
    };
    let is_obj = match &j {
        Json::Obj(_) => true,
        _ => false,
    };
    let has_products = get_field(&j, "products").is_some();
    match crate::settings::backup_shape(is_obj, has_products) {
        Ok(()) => Ok(BackupDoc { root: j }),
        Err(e) => Err(e),
    }
}

/// The rows of a table in a backup: the array under its name, none when it is missing or is
/// not an array (older backups lack the later tables).
pub open spec fn table_rows(root: Json, name: Seq<char>) -> Seq<Json> {
    match field(root, name) {
        Some(Json::Arr(a)) => a@,
        _ => seq![],
    }
}

pub fn rows_of<'a>(doc: &'a BackupDoc, table: &str) -> (r: &'a [Json])
    ensures
        r@ == table_rows(doc.root, table@),
{
    match get_field(&doc.root, table) {
        Some(Json::Arr(a)) => a.as_slice(),
        _ => &[],
    }
}

/// A text cell of a row: the value when it is a string.
pub open spec fn text_cell(row: Json, col: Seq<char>) -> Option<Seq<char>> {
    match field(row, col) {
        Some(Json::Str(s)) => Some(s@),
        _ => None,
    }
}

pub fn row_text(row: &Json, col: &str) -> (r: Option<String>)
    ensures
        match r {
            Some(s) => text_cell(*row, col@) == Some(s@),
            None => text_cell(*row, col@) is None,
        },
{
    match get_field(row, col) {
        Some(Json::Str(s)) => Some(string_of(chars_of(s.as_str()).as_slice())),
        _ => None,
    }
}

/// An integer cell: the value when it is a number written as a whole number that fits in an
/// `i64` (what `serde_json::Value::as_i64` accepts).
pub open spec fn int_cell(row: Json, col: Seq<char>) -> Option<int> {
    match field(row, col) {
        Some(Json::Num(t)) => crate::focus::i64_text(t@),
        _ => None,
    }
}

pub fn row_int(row: &Json, col: &str) -> (r: Option<i64>)
    ensures
        match r {
            Some(v) => int_cell(*row, col@) == Some(v as int),
            None => int_cell(*row, col@) is None,
        },
{
    match get_field(row, col) {
        Some(Json::Num(t)) => crate::focus::parse_i64(t.as_str()),
        _ => None,
    }
}

/// What a restore puts in place of a missing status of a product's work.
pub const STATUS_DEFAULT: &'static str = "pending";
/// ... of a missing quote status.
pub const QUOTE_STATUS_DEFAULT: &'static str = "draft";
/// ... of a missing quote currency.
pub const CURRENCY_DEFAULT: &'static str = "USD";
/// ... of a missing snapshot source.
pub const SNAPSHOT_SOURCE_DEFAULT: &'static str = "gsc";
/// ... of a missing chat message list.
pub const MESSAGES_DEFAULT: &'static str = "[]";

/// A text cell, or the given default when it is missing or not a string.
pub fn row_text_or(row: &Json, col: &str, default: &str) -> (r: String)
    ensures
        r@ == match text_cell(*row, col@) {
            Some(s) => s,
            None => default@,
        },
{
    match row_text(row, col) {
        Some(s) => s,
        None => string_of(chars_of(default).as_slice()),
    }
}

/// An integer cell, or the given default.
pub fn row_int_or(row: &Json, col: &str, default: i64) -> (r: i64)
    ensures
        r == match int_cell(*row, col@) {
            Some(v) => v,
            None => default as int,
        },
{
    match row_int(row, col) {
        Some(v) => v,
        None => default,
    }
}

/// A number cell, as its text: the value when it is a number (its reading as a fraction is
/// left to the caller).
pub open spec fn num_cell(row: Json, col: Seq<char>) -> Option<Seq<char>> {
    match field(row, col) {
        Some(Json::Num(t)) => Some(t@),
        _ => None,
    }
}

pub fn row_num(row: &Json, col: &str) -> (r: Option<String>)
    ensures
        match r {
            Some(s) => num_cell(*row, col@) == Some(s@),
            None => num_cell(*row, col@) is None,
        },
{
    match get_field(row, col) {
        Some(Json::Num(t)) => Some(string_of(chars_of(t.as_str()).as_slice())),
        _ => None,
    }
}

/// The application's name written at the top of a backup.
pub open spec fn is_app_name(j: Json) -> bool {
    j matches Json::Str(a) && a@ == "seo-yoneticisi"@
}

/// The entries of a written backup: `app` (the application's name), `exported_at`, then each
/// table's rows under its name, in table order.
pub open spec fn written_entries(es: Seq<(String, Json)>, at: String, tables: Seq<Vec<Json>>) -> bool {
    &&& es.len() == 2 + BACKUP_TABLE_COUNT
    &&& es[0].0@ == "app"@
    &&& is_app_name(es[0].1)
    &&& es[1].0@ == "exported_at"@
    &&& es[1].1 == Json::Str(at)
    &&& forall|i: int| 0 <= i < BACKUP_TABLE_COUNT ==> #[trigger] es[i + 2].0@ == table_name(i) && es[i + 2].1 == Json::Arr(tables[i])
}

/// A backup document written from the rows of the sixteen tables, in table order.
pub fn export_doc(exported_at: String, tables: Vec<Vec<Json>>) -> (r: BackupDoc)
    requires
        tables@.len() == BACKUP_TABLE_COUNT,
    ensures
        r.root matches Json::Obj(es) && written_entries(es@, exported_at, tables@),
{
    let mut entries: Vec<(String, Json)> = Vec::new();
    entries.push((string_of(chars_of("app").as_slice()), Json::Str(string_of(chars_of("seo-yoneticisi").as_slice()))));
    entries.push((string_of(chars_of("exported_at").as_slice()), Json::Str(exported_at)));
    let ghost all = tables@;
    let mut tables = tables;
    let mut i: usize = 0;
    while i < BACKUP_TABLE_COUNT
        invariant
            i <= BACKUP_TABLE_COUNT,
            all.len() == BACKUP_TABLE_COUNT,
            tables@ == all.skip(i as int),
            entries@.len() == 2 + i,
            entries@[0].0@ == "app"@,
            is_app_name(entries@[0].1),
            entries@[1].0@ == "exported_at"@,
            entries@[1].1 == Json::Str(exported_at),
            forall|k: int| 0 <= k < i ==> (#[trigger] entries@[k + 2]).0@ == table_name(k),
            forall|k: int| 0 <= k < i ==> (#[trigger] entries@[k + 2]).1 == Json::Arr(all[k]),
        decreases BACKUP_TABLE_COUNT - i,
    {
        let rows = tables.remove(0);
        assert(rows == all[i as int]);
        assert(tables@ == all.skip(i + 1));
        let name = backup_table(i);
        let key = string_of(chars_of(name).as_slice());
        assert(key@ == table_name(i as int));
        let ghost before = entries@;
        entries.push((key, Json::Arr(rows)));
        assert(entries@[i + 2].0@ == table_name(i as int));
        assert(entries@[i + 2].1 == Json::Arr(all[i as int]));
        assert forall|k: int| 0 <= k < i + 1 implies (#[trigger] entries@[k + 2]).0@ == table_name(k)
            && entries@[k + 2].1 == Json::Arr(all[k]) by {
            if k < i {
                assert(entries@[k + 2] == before[k + 2]);
            }
        }
        i = i + 1;
    }
    BackupDoc { root: Json::Obj(entries) }
}

/// The text of a backup document.
pub fn backup_text(doc: &BackupDoc) -> (r: String)
    ensures
        r@ == json_text(doc.root),
{
    write_json(&doc.root)
}

/// What tells two names apart: length and three characters.
spec fn name_sig(s: Seq<char>) -> (nat, char, char, char) {
    (s.len(), s[0], s[1], s[7])
}

proof fn lemma_table_names_distinct(i: int, j: int)
    requires
        0 <= i < BACKUP_TABLE_COUNT,
        0 <= j < BACKUP_TABLE_COUNT,
        i != j,
    ensures
        table_name(i) != table_name(j),
        table_name(i) != "app"@,
        table_name(i) != "exported_at"@,
{
    reveal_strlit("products");
    reveal_strlit("seo_status");
    reveal_strlit("sync_log");
    reveal_strlit("settings");
    reveal_strlit("chat_sessions");
    reveal_strlit("work_events");
    reveal_strlit("metric_snapshots");
    reveal_strlit("metric_page_rows");
    reveal_strlit("contacts");
    reveal_strlit("contact_events");
    reveal_strlit("contact_tags");
    reveal_strlit("contact_products");
    reveal_strlit("quotes");
    reveal_strlit("quote_items");
    reveal_strlit("quote_versions");
    reveal_strlit("gemini_calls");
    reveal_strlit("app");
    reveal_strlit("exported_at");
    assert(name_sig(table_name(i)) != name_sig(table_name(j)));
    assert(table_name(i).len() != 3);
    assert(name_sig(table_name(i)) != name_sig("exported_at"@));
}

proof fn lemma_entry_skip(es: Seq<(String, Json)>, key: Seq<char>, k: int)
    requires
        0 <= k < es.len(),
        es[k].0@ != key,
    ensures
        entry_from(es, key, k) == entry_from(es, key, k + 1),
{
}

proof fn lemma_entry_reach(es: Seq<(String, Json)>, at: String, tables: Seq<Vec<Json>>, i: int, k: int)
    requires
        written_entries(es, at, tables),
        0 <= i < BACKUP_TABLE_COUNT,
        0 <= k <= i + 2,
    ensures
        entry_from(es, table_name(i), k) == entry_from(es, table_name(i), i + 2),
    decreases i + 2 - k,
{
    if k < i + 2 {
        let key = table_name(i);
        lemma_table_names_distinct(i, if i == 0 { 1 } else { 0 });
        if k >= 2 {
            lemma_table_names_distinct(i, k - 2);
            assert(es[(k - 2) + 2].0@ == table_name(k - 2));
        }
        lemma_entry_skip(es, key, k);
        lemma_entry_reach(es, at, tables, i, k + 1);
    }
}

/// Reading a written backup gives back each table's rows: the rows under a table's name are
/// exactly the rows written for it.
pub proof fn law_written_tables_read_back(root: Json, at: String, tables: Seq<Vec<Json>>, i: int)
    requires
        root matches Json::Obj(es) && written_entries(es@, at, tables),
        0 <= i < BACKUP_TABLE_COUNT,
    ensures
        table_rows(root, table_name(i)) == tables[i]@,
{
    let es = root->Obj_0@;
    let key = table_name(i);
    lemma_entry_reach(es, at, tables, i, 0);
    assert(es[i + 2].0@ == table_name(i));
    assert(entry_from(es, key, i + 2) == Some(es[i + 2].1));
}

} // verus!
