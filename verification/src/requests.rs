//! Per-request decision logic: the preview pipeline's validation order
//! and fetch plan, the index view's optional validation, and the diff
//! view's assembly with script-safe serialized logo strings.

use vstd::prelude::*;
use vstd::string::*;

use crate::css::commons_query_url;
use crate::text::has_suffix_spec;
use crate::validate::{
    domain_ok, is_valid_logo, is_valid_skin, validate_domain, validate_logo, validate_skin,
    RegistryAnswer, ValidationError,
};

verus! {

/// What the preview fetches once its inputs validate: the wiki page in
/// the requested skin, and the media-info query for the logo.
#[derive(Debug)]
pub struct PreviewPlan {
    pub page_url: String,
    pub commons_url: String,
}

/// The error a rejected logo name reports: the extension is checked
/// before the namespace prefix.
pub open spec fn logo_error(l: Seq<char>) -> ValidationError {
    if !has_suffix_spec(l, ".svg"@) {
        ValidationError::LogoNotSvg
    } else {
        ValidationError::LogoNotFile
    }
}

/// The first failure among the preview's validations, in the pipeline's
/// order: skin, then domain, then logo.
pub open spec fn preview_error(
    wiki: Seq<char>,
    logo: Seq<char>,
    skin: Seq<char>,
    a: RegistryAnswer,
) -> Option<ValidationError> {
    if !is_valid_skin(skin) {
        Some(ValidationError::InvalidSkin)
    } else if !domain_ok(wiki, a) {
        Some(ValidationError::InvalidDomain)
    } else if !is_valid_logo(logo) {
        Some(logo_error(logo))
    } else {
        None
    }
}

/// Validate a preview request and lay out what to fetch: the page at
/// `https://{wiki}/?useskin={skin}` and the logo's media-info query.
pub fn plan_preview(wiki: &str, logo: &str, skin: &str, registry: RegistryAnswer) -> (r: Result<
    PreviewPlan,
    ValidationError,
>)
    ensures
        (match r {
            Err(e) => preview_error(wiki@, logo@, skin@, registry) == Some(e),
            Ok(plan) => {
                &&& preview_error(wiki@, logo@, skin@, registry) is None
                &&& plan.page_url@ == "https://"@ + wiki@ + "/?useskin="@ + skin@
                &&& plan.commons_url@
                    == "https://commons.wikimedia.org/w/api.php?action=query&format=json&prop=imageinfo&titles="@
                    + logo@ + "&formatversion=2&iiprop=url&iiurlwidth=135"@
            },
        }),
{
    if let Err(e) = validate_skin(skin) {
        return Err(e);
    }
    if let Err(e) = validate_domain(wiki, registry) {
        return Err(e);
    }
    if let Err(e) = validate_logo(logo) {
        return Err(e);
    }
    let mut page_url = String::from_str("https://");
    page_url.append(wiki);
    page_url.append("/?useskin=");
    page_url.append(skin);
    let commons_url = commons_query_url(logo);
    Ok(PreviewPlan { page_url, commons_url })
}

/// What the index view is handed: the request's fields, passed through
/// once they validate.
#[derive(Debug)]
pub struct IndexData {
    pub wiki: Option<String>,
    pub logo: Option<String>,
}

/// Validate the index view's optional fields — the wiki as a domain, the
/// logo as a file name — and pass them through; an absent field is not
/// validated.
pub fn build_index(wiki: Option<String>, logo: Option<String>, registry: RegistryAnswer) -> (r:
    Result<IndexData, ValidationError>)
    ensures
        (match r {
            Ok(d) => {
                &&& (wiki matches Some(w) ==> domain_ok(w@, registry))
                &&& (logo matches Some(l) ==> is_valid_logo(l@))
                &&& d.wiki.deep_view() == wiki.deep_view()
                &&& d.logo.deep_view() == logo.deep_view()
            },
            Err(e) => {
                ||| (wiki matches Some(w) && !domain_ok(w@, registry) && e
                    == ValidationError::InvalidDomain)
                ||| ((wiki matches Some(w) ==> domain_ok(w@, registry)) && (logo matches Some(l)
                    && !is_valid_logo(l@) && e == logo_error(l@)))
            },
        }),
{
    if let Some(w) = &wiki {
        if let Err(e) = validate_domain(w.as_str(), registry) {
            return Err(e);
        }
    }
    if let Some(l) = &logo {
        if let Err(e) = validate_logo(l.as_str()) {
            return Err(e);
        }
    }
    Ok(IndexData { wiki, logo })
}

/// What the diff view is handed: each candidate logo URL as given, and
/// serialized as a JSON string literal safe to embed in a script.
#[derive(Debug)]
pub struct DiffData {
    pub logo1: Option<String>,
    pub logo2: Option<String>,
    pub logo1_safe: Option<String>,
    pub logo2_safe: Option<String>,
}

/// JSON string literal holding `s`, as serde_json serializes a string:
/// a function of the characters alone.
pub uninterp spec fn json_quoted(s: Seq<char>) -> Seq<char>;

/// Relies on `serde_json::to_string` on `str`: the result is the JSON
/// string literal that carries `s` escaped, a function of `s` alone.
/// Serializing a string value cannot fail.
#[verifier::external_body]
fn json_quote(s: &str) -> (r: String)
    ensures
        r@ == json_quoted(s@),
{
    serde_json::to_string(s).expect("serializing a string value cannot fail")
}

/// Validate each present candidate as a domain, in order, and hand the
/// diff view the raw strings with their script-safe serializations.
pub fn build_diff(
    logo1: Option<String>,
    logo2: Option<String>,
    registry1: RegistryAnswer,
    registry2: RegistryAnswer,
) -> (r: Result<DiffData, ValidationError>)
    ensures
        (match r {
            Ok(d) => {
                &&& (logo1 matches Some(l) ==> domain_ok(l@, registry1))
                &&& (logo2 matches Some(l) ==> domain_ok(l@, registry2))
                &&& d.logo1.deep_view() == logo1.deep_view()
                &&& d.logo2.deep_view() == logo2.deep_view()
                &&& (match logo1 {
                    Some(l) => d.logo1_safe matches Some(s) && s@ == json_quoted(l@),
                    None => d.logo1_safe is None,
                })
                &&& (match logo2 {
                    Some(l) => d.logo2_safe matches Some(s) && s@ == json_quoted(l@),
                    None => d.logo2_safe is None,
                })
            },
            Err(e) => {
                &&& e == ValidationError::InvalidDomain
                &&& {
                    ||| (logo1 matches Some(l) && !domain_ok(l@, registry1))
                    ||| ((logo1 matches Some(l) ==> domain_ok(l@, registry1)) && (logo2
                        matches Some(l) && !domain_ok(l@, registry2)))
                }
            },
        }),
{
    let logo1_safe = match &logo1 {
        Some(l) => {
            if let Err(e) = validate_domain(l.as_str(), registry1) {
                return Err(e);
            }
            Some(json_quote(l.as_str()))
        },
        None => None,
    };
    let logo2_safe = match &logo2 {
        Some(l) => {
            if let Err(e) = validate_domain(l.as_str(), registry2) {
                return Err(e);
            }
            Some(json_quote(l.as_str()))
        },
        None => None,
    };
    Ok(DiffData { logo1, logo2, logo1_safe, logo2_safe })
}

} // verus!
