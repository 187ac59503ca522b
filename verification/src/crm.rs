//! Customer follow-up records (contacts, their events and products, CSV import results).

use vstd::prelude::*;
use vstd::string::StrSliceExecFns;
use crate::text::{chars_of, extend_str, lowercase, nat_digits, push_u64, str_eq, string_of, to_lowercase, trim, trim_str};

verus! {

/// A customer contact.
#[derive(Debug, Clone)]
pub struct Contact {
    pub id: i64,
    pub name: String,
    pub company: String,
    pub email: String,
    pub phone: String,
    pub channel: String,
    pub note: String,
    pub last_contact_at: Option<String>,
    pub next_step_at: Option<String>,
    pub next_step_note: String,
    pub archived: bool,
    /// Number of contact events.
    pub event_count: i64,
    /// Interest tags.
    pub tags: Vec<String>,
}

/// One contact event: `call`, `email`, `meeting`, `note` or `followup_done`.
#[derive(Debug, Clone)]
pub struct ContactEvent {
    pub id: i64,
    pub at: String,
    pub kind: String,
    pub note: String,
}

/// A product linked to a contact.
#[derive(Debug, Clone)]
pub struct ContactProduct {
    pub sku: String,
    pub name: String,
    pub contact_id: i64,
    pub at: String,
}

/// Preview of a contact CSV before import.
#[derive(Debug, Clone)]
pub struct CsvPreview {
    pub headers: Vec<String>,
    /// The first rows only.
    pub rows: Vec<Vec<String>>,
    pub total_rows: usize,
    pub delimiter: String,
    /// Guessed column index per field.
    pub mapping: Vec<Option<usize>>,
    /// Field key and readable name.
    pub fields: Vec<(String, String)>,
}

/// Outcome of a contact CSV import.
#[derive(Debug, Clone)]
pub struct ImportSummary {
    pub added: usize,
    pub updated: usize,
    pub skipped: usize,
    /// Why rows were skipped.
    pub skip_reason: String,
}

/// The silence threshold (0 = off), the suggestion drawn from data (none with too little
/// data) and how many contacts it rests on.
#[derive(Debug, Clone)]
pub struct SilenceState {
    pub days: i64,
    pub suggestion: Option<u32>,
    pub sample_contacts: usize,
}

/// A contact needs a name.
pub open spec fn name_ok(name: Seq<char>) -> bool {
    trim(name).len() > 0
}

/// The fields of a contact as saved: name, company, e-mail and phone trimmed; channel and
/// note as given.
pub fn contact_fields(
    name: &str,
    company: &str,
    email: &str,
    phone: &str,
) -> (r: Result<(String, String, String, String), String>)
    ensures
        match r {
            Ok((n, c, e, p)) => name_ok(name@) && n@ == trim(name@) && c@ == trim(company@) && e@
                == trim(email@) && p@ == trim(phone@),
            Err(m) => !name_ok(name@) && m@ == "Kişi adı boş olamaz."@,
        },
{
    let n = trim_str(name);
    if n.len() == 0 {
        return Err(string_of(chars_of("Kişi adı boş olamaz.").as_slice()));
    }
    Ok((
        string_of(n.as_slice()),
        string_of(trim_str(company).as_slice()),
        string_of(trim_str(email).as_slice()),
        string_of(trim_str(phone).as_slice()),
    ))
}

/// An imported row is the same person as a stored contact when a non-empty e-mail matches
/// (ignoring case) or a non-empty phone matches exactly.
pub open spec fn same_person(email: Seq<char>, phone: Seq<char>, stored_email: Seq<char>, stored_phone: Seq<char>) -> bool {
    (email.len() > 0 && lowercase(stored_email) == lowercase(email)) || (phone.len() > 0 && stored_phone == phone)
}

pub fn is_same_person(email: &str, phone: &str, stored_email: &str, stored_phone: &str) -> (r: bool)
    ensures
        r == same_person(email@, phone@, stored_email@, stored_phone@),
{
    if email.unicode_len() > 0 {
        let a = to_lowercase(stored_email);
        let b = to_lowercase(email);
        if str_eq(a.as_str(), b.as_str()) {
            return true;
        }
    }
    phone.unicode_len() > 0 && str_eq(stored_phone, phone)
}

/// An imported value overwrites a stored one only when it is not empty: a column left blank
/// in the file does not erase what was entered in the application.
pub open spec fn merged(stored: Seq<char>, incoming: Seq<char>) -> Seq<char> {
    if incoming.len() > 0 {
        incoming
    } else {
        stored
    }
}

pub fn merge_field(stored: String, incoming: String) -> (r: String)
    ensures
        r@ == merged(stored@, incoming@),
{
    if incoming.as_str().unicode_len() > 0 {
        incoming
    } else {
        stored
    }
}

/// The import summary: rows without a name are counted and the reason says how many.
pub fn import_summary(added: usize, updated: usize, skipped: usize) -> (r: ImportSummary)
    ensures
        r.added == added && r.updated == updated && r.skipped == skipped,
        skipped == 0 ==> r.skip_reason@.len() == 0,
        skipped > 0 ==> r.skip_reason@ == nat_digits(skipped as nat) + " satırda ad boştu"@,
{
    let reason = if skipped > 0 {
        let mut m: Vec<char> = Vec::new();
        push_u64(&mut m, skipped as u64);
        extend_str(&mut m, " satırda ad boştu");
        string_of(m.as_slice())
    } else {
        String::new()
    };
    ImportSummary { added, updated, skipped, skip_reason: reason }
}

/// A contact event updates the last contact time and replaces the next step; completing a
/// follow-up is an event of kind `followup_done` that clears the next step.
pub fn followup_done() -> (r: (&'static str, Option<String>, String))
    ensures
        r.0@ == "followup_done"@,
        r.1 is None,
        r.2@.len() == 0,
{
    ("followup_done", None, String::new())
}

} // verus!
