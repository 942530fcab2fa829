//! Request-parameter validators: skin names against the fixed set of
//! rendering modes, logo file names for the `File:` prefix and `.svg`
//! extension, and wiki domains against two safe hosts and the external
//! domain registry. The registry query itself is I/O and stays outside
//! the library; its answer is handed in as a [`RegistryAnswer`].

use vstd::prelude::*;
use vstd::string::*;

use crate::text::{has_prefix, has_prefix_spec, has_suffix, has_suffix_spec, str_eq};

verus! {

/// Why a request parameter was rejected.
#[derive(Clone, Copy, Debug, PartialEq, Eq, Structural)]
pub enum ValidationError {
    /// The skin is not one of the known rendering modes.
    InvalidSkin,
    /// The logo file name does not end in `.svg`.
    LogoNotSvg,
    /// The logo file name does not begin with `File:`.
    LogoNotFile,
    /// The wiki names no known domain.
    InvalidDomain,
}

impl ValidationError {
    /// The message the error view shows for this failure.
    pub open spec fn spec_message(self) -> Seq<char> {
        match self {
            ValidationError::InvalidSkin => "Invalid skin specified"@,
            ValidationError::LogoNotSvg => "Logo must be a SVG"@,
            ValidationError::LogoNotFile => "Logo must begin with File:"@,
            ValidationError::InvalidDomain => "Invalid domain"@,
        }
    }

    /// The message the error view shows for this failure.
    pub fn message(self) -> (r: &'static str)
        ensures
            r@ == self.spec_message(),
    {
        match self {
            ValidationError::InvalidSkin => "Invalid skin specified",
            ValidationError::LogoNotSvg => "Logo must be a SVG",
            ValidationError::LogoNotFile => "Logo must begin with File:",
            ValidationError::InvalidDomain => "Invalid domain",
        }
    }
}

/// What the external domain registry answered for a host's URL.
#[derive(Clone, Copy, Debug, PartialEq, Eq, Structural)]
pub enum RegistryAnswer {
    /// The registry cannot be reached because the service is not running
    /// in its expected hosting environment; the check is skipped.
    Unreachable,
    /// The registry holds a row for the host's URL.
    Found,
    /// The registry is reachable and holds no row for the host's URL.
    Missing,
}

/// The skins a preview may be requested in.
pub open spec fn is_valid_skin(s: Seq<char>) -> bool {
    s == "vector"@ || s == "timeless"@ || s == "monobook"@
}

/// Accept exactly the skins `vector`, `timeless` and `monobook`.
pub fn validate_skin(skin: &str) -> (r: Result<(), ValidationError>)
    ensures
        r is Ok <==> is_valid_skin(skin@),
        r is Err ==> r == Err::<(), ValidationError>(ValidationError::InvalidSkin),
{
    if str_eq(skin, "vector") || str_eq(skin, "timeless") || str_eq(skin, "monobook") {
        Ok(())
    } else {
        Err(ValidationError::InvalidSkin)
    }
}

/// A logo file name must name an SVG in the file namespace.
pub open spec fn is_valid_logo(l: Seq<char>) -> bool {
    has_suffix_spec(l, ".svg"@) && has_prefix_spec(l, "File:"@)
}

/// Accept logo names that end in `.svg` and begin with `File:`, checking
/// the extension first, as the reported error records.
pub fn validate_logo(logo: &str) -> (r: Result<(), ValidationError>)
    ensures
        r is Ok <==> is_valid_logo(logo@),
        !has_suffix_spec(logo@, ".svg"@) ==> r == Err::<(), ValidationError>(
            ValidationError::LogoNotSvg,
        ),
        has_suffix_spec(logo@, ".svg"@) && !has_prefix_spec(logo@, "File:"@) ==> r == Err::<
            (),
            ValidationError,
        >(ValidationError::LogoNotFile),
{
    if !has_suffix(logo, ".svg") {
        Err(ValidationError::LogoNotSvg)
    } else if !has_prefix(logo, "File:") {
        Err(ValidationError::LogoNotFile)
    } else {
        Ok(())
    }
}

/// Host component of a URL string, as the `url` crate parses it: the
/// result is a function of the string alone.
pub uninterp spec fn host_of(s: Seq<char>) -> Option<Seq<char>>;

/// Relies on `url::Url::parse`: parses an absolute URL and hands out its
/// host component through `Url::host_str`, `None` when the string is not
/// a URL or the URL carries no host.
#[verifier::external_body]
fn url_host(s: &str) -> (r: Option<String>)
    ensures
        (match r {
            Some(h) => host_of(s@) == Some(h@),
            None => host_of(s@) is None,
        }),
{
    match url::Url::parse(s) {
        Ok(u) => u.host_str().map(|h| h.to_string()),
        Err(_) => None,
    }
}

/// The host a candidate wiki names: the URL's host when the candidate is
/// written as an `https://` URL, the candidate itself otherwise.
pub open spec fn spec_domain_host(w: Seq<char>) -> Option<Seq<char>> {
    if has_prefix_spec(w, "https://"@) {
        host_of(w)
    } else {
        Some(w)
    }
}

/// Hosts accepted without consulting the registry: they serve media and
/// user files, not wikis.
pub open spec fn is_safe_host(h: Seq<char>) -> bool {
    h == "upload.wikimedia.org"@ || h == "people.wikimedia.org"@
}

/// The domain decision, given what the registry answered: a candidate is
/// valid when it names a host that is safe, or that the registry knows,
/// or that cannot be checked because the registry is unreachable.
pub open spec fn domain_ok(w: Seq<char>, a: RegistryAnswer) -> bool {
    match spec_domain_host(w) {
        Some(h) => is_safe_host(h) || a != RegistryAnswer::Missing,
        None => false,
    }
}

fn domain_host(wiki: &str) -> (r: Option<String>)
    ensures
        (match r {
            Some(h) => spec_domain_host(wiki@) == Some(h@),
            None => spec_domain_host(wiki@) is None,
        }),
{
    if has_prefix(wiki, "https://") {
        url_host(wiki)
    } else {
        Some(String::from_str(wiki))
    }
}

fn is_safe_host_exec(h: &str) -> (r: bool)
    ensures
        r == is_safe_host(h@),
{
    str_eq(h, "upload.wikimedia.org") || str_eq(h, "people.wikimedia.org")
}

/// The registry lookup a candidate wiki calls for: `Err` when the
/// candidate names no host, `Ok(None)` when the host is accepted without
/// a lookup, and `Ok(Some(u))` with the URL `https://{host}` whose row
/// the registry is to be asked for.
pub fn domain_lookup_url(wiki: &str) -> (r: Result<Option<String>, ValidationError>)
    ensures
        (match r {
            Err(e) => spec_domain_host(wiki@) is None && e == ValidationError::InvalidDomain,
            Ok(q) => spec_domain_host(wiki@) matches Some(h) && (match q {
                None => is_safe_host(h),
                Some(u) => !is_safe_host(h) && u@ == "https://"@ + h,
            }),
        }),
{
    match domain_host(wiki) {
        None => Err(ValidationError::InvalidDomain),
        Some(h) => {
            if is_safe_host_exec(h.as_str()) {
                Ok(None)
            } else {
                let mut u = String::from_str("https://");
                u.append(h.as_str());
                Ok(Some(u))
            }
        },
    }
}

/// Accept a candidate wiki whose host is safe, or known to the registry,
/// or unverifiable because the registry is unreachable.
pub fn validate_domain(wiki: &str, registry: RegistryAnswer) -> (r: Result<(), ValidationError>)
    ensures
        r is Ok <==> domain_ok(wiki@, registry),
        r is Err ==> r == Err::<(), ValidationError>(ValidationError::InvalidDomain),
{
    match domain_host(wiki) {
        None => Err(ValidationError::InvalidDomain),
        Some(h) => {
            if is_safe_host_exec(h.as_str()) {
                Ok(())
            } else if registry == RegistryAnswer::Missing {
                Err(ValidationError::InvalidDomain)
            } else {
                Ok(())
            }
        },
    }
}

/// A candidate that names a safe host passes domain validation whatever
/// the registry answered.
pub proof fn lemma_safe_host_ignores_registry(w: Seq<char>, a: RegistryAnswer)
    requires
        spec_domain_host(w) matches Some(h) && is_safe_host(h),
    ensures
        domain_ok(w, a),
{
}

} // verus!
