//! Application settings as the settings screen sees them, assembled from stored values.

use vstd::prelude::*;
use crate::text::{chars_of, string_of, trim, trim_str};

verus! {

/// The product feed used until the user sets another.
pub const DEFAULT_FEED_URL: &'static str = "https://www.kurumsalit.com/output/2567783262";

/// The settings screen's view.
#[derive(Debug, Clone)]
pub struct Settings {
    pub feed_url: String,
    pub gemini_api_key: String,
    pub capsolver_api_key: String,
    /// Research country code, `tr` by default.
    pub seo_country: String,
    pub gsc_site_url: String,
    /// E-mail of the stored service account (display only); empty when not configured.
    pub gsc_client_email: String,
    pub ideasoft_domain: String,
    pub ideasoft_token: String,
    pub ideasoft_active: bool,
    pub theme: Option<String>,
    pub last_backup_at: Option<String>,
}

/// The stored values the settings view is made from (absent keys are `None`).
pub struct StoredSettings {
    pub feed_url: Option<String>,
    pub gemini_api_key: Option<String>,
    pub capsolver_api_key: Option<String>,
    pub seo_country: Option<String>,
    pub gsc_site_url: Option<String>,
    pub gsc_client_email: Option<String>,
    pub ideasoft_domain: Option<String>,
    pub ideasoft_token: Option<String>,
    pub theme: Option<String>,
    pub last_backup_at: Option<String>,
}

pub open spec fn or_empty(o: Option<String>) -> Seq<char> {
    match o {
        Some(s) => s@,
        None => Seq::empty(),
    }
}

pub open spec fn or_default(o: Option<String>, d: Seq<char>) -> Seq<char> {
    match o {
        Some(s) => s@,
        None => d,
    }
}

fn take_or(o: Option<String>, d: &str) -> (r: String)
    ensures
        r@ == or_default(o, d@),
{
    match o {
        Some(s) => s,
        None => string_of(chars_of(d).as_slice()),
    }
}

/// Builds the settings view: absent values are empty, the feed falls back to the default
/// feed, the country to `tr`; the store module is active only with both domain and token.
pub fn assemble_settings(s: StoredSettings) -> (r: Settings)
    ensures
        r.feed_url@ == or_default(s.feed_url, DEFAULT_FEED_URL@),
        r.gemini_api_key@ == or_empty(s.gemini_api_key),
        r.capsolver_api_key@ == or_empty(s.capsolver_api_key),
        r.seo_country@ == or_default(s.seo_country, "tr"@),
        r.gsc_site_url@ == or_empty(s.gsc_site_url),
        r.gsc_client_email@ == or_empty(s.gsc_client_email),
        r.ideasoft_domain@ == or_empty(s.ideasoft_domain),
        r.ideasoft_token@ == or_empty(s.ideasoft_token),
        r.ideasoft_active == (trim(or_empty(s.ideasoft_domain)).len() > 0 && trim(
            or_empty(s.ideasoft_token),
        ).len() > 0),
        r.theme == s.theme,
        r.last_backup_at == s.last_backup_at,
{
    let domain = take_or(s.ideasoft_domain, "");
    let token = take_or(s.ideasoft_token, "");
    proof {
        reveal_strlit("");
    }
    let active = trim_str(domain.as_str()).len() > 0 && trim_str(token.as_str()).len() > 0;
    Settings {
        feed_url: take_or(s.feed_url, DEFAULT_FEED_URL),
        gemini_api_key: take_or(s.gemini_api_key, ""),
        capsolver_api_key: take_or(s.capsolver_api_key, ""),
        seo_country: take_or(s.seo_country, "tr"),
        gsc_site_url: take_or(s.gsc_site_url, ""),
        gsc_client_email: take_or(s.gsc_client_email, ""),
        ideasoft_domain: domain,
        ideasoft_token: token,
        ideasoft_active: active,
        theme: s.theme,
        last_backup_at: s.last_backup_at,
    }
}

/// A backup file format.
#[derive(Debug, Clone, Copy, PartialEq, Eq, Structural)]
pub enum BackupFormat {
    Db,
    Json,
}

/// The export format named on the settings screen; anything else is refused.
pub fn export_format(format: &str) -> (r: Result<BackupFormat, String>)
    ensures
        format@ == "db"@ ==> r == Ok::<BackupFormat, String>(BackupFormat::Db),
        format@ == "json"@ ==> r == Ok::<BackupFormat, String>(BackupFormat::Json),
        format@ != "db"@ && format@ != "json"@ ==> (r matches Err(e) && e@ == "Bilinmeyen format: "@ + format@),
{
    assert("db"@ != "json"@) by {
        reveal_strlit("db");
        reveal_strlit("json");
        assert("db"@.len() != "json"@.len());
    }
    if crate::text::str_eq(format, "db") {
        Ok(BackupFormat::Db)
    } else if crate::text::str_eq(format, "json") {
        Ok(BackupFormat::Json)
    } else {
        let mut m = chars_of("Bilinmeyen format: ");
        crate::text::extend_str(&mut m, format);
        Err(string_of(m.as_slice()))
    }
}

/// A restore reads a JSON backup when the file name ends in `.json` (any case), a
/// database copy otherwise.
pub fn import_format(path: &str) -> (r: BackupFormat)
    ensures
        r == (if crate::text::ends_with(crate::text::lowercase(path@), ".json"@) {
            BackupFormat::Json
        } else {
            BackupFormat::Db
        }),
{
    let low = crate::text::lowercase_chars(chars_of(path).as_slice());
    let ext = chars_of(".json");
    if crate::text::ends_with_chars(low.as_slice(), ext.as_slice()) {
        BackupFormat::Json
    } else {
        BackupFormat::Db
    }
}

/// A JSON backup must be an object holding the products table.
pub fn backup_shape(is_object: bool, has_products: bool) -> (r: Result<(), String>)
    ensures
        r is Ok <==> is_object && has_products,
        !is_object ==> (r matches Err(e) && e@ == "Beklenmeyen JSON biçimi."@),
        is_object && !has_products ==> (r matches Err(e) && e@
            == "Bu dosya geçerli bir SEO Yöneticisi yedeği değil."@),
{
    if !is_object {
        return Err(string_of(chars_of("Beklenmeyen JSON biçimi.").as_slice()));
    }
    if !has_products {
        return Err(string_of(chars_of("Bu dosya geçerli bir SEO Yöneticisi yedeği değil.").as_slice()));
    }
    Ok(())
}

} // verus!
