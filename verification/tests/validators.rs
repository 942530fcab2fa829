use logo_test::requests::{build_diff, build_index, plan_preview};
use logo_test::validate::{
    domain_lookup_url, validate_domain, validate_logo, validate_skin, RegistryAnswer,
    ValidationError,
};
use logo_test::healthz;

#[test]
fn test_validate_skin() {
    // No panic
    validate_skin("vector").unwrap()
}

#[test]
#[should_panic]
fn test_validate_skin_bad() {
    validate_skin("whatever").unwrap();
}

#[test]
fn test_validate_logo() {
    // No panic
    validate_logo("File:Wiki.svg").unwrap();
}

#[test]
#[should_panic]
fn test_validate_logo_no_file() {
    validate_logo("Wiki.svg").unwrap();
}

#[test]
#[should_panic]
fn test_validate_logo_not_svg() {
    validate_logo("File:Wiki.png").unwrap();
}

#[test]
fn test_validate_domain() {
    validate_domain("upload.wikimedia.org", RegistryAnswer::Unreachable).unwrap();
    validate_domain("people.wikmedia.org", RegistryAnswer::Unreachable).unwrap();
}

#[test]
fn test_all_known_skins_pass() {
    validate_skin("vector").unwrap();
    validate_skin("timeless").unwrap();
    validate_skin("monobook").unwrap();
}

#[test]
fn test_unknown_skins_fail() {
    assert_eq!(validate_skin(""), Err(ValidationError::InvalidSkin));
    assert_eq!(validate_skin("modern"), Err(ValidationError::InvalidSkin));
    assert_eq!(validate_skin("Vector"), Err(ValidationError::InvalidSkin));
    assert_eq!(validate_skin("vector "), Err(ValidationError::InvalidSkin));
}

#[test]
fn test_logo_error_variants() {
    assert_eq!(validate_logo("Bad_logo"), Err(ValidationError::LogoNotSvg));
    assert_eq!(validate_logo("File:Wiki.png"), Err(ValidationError::LogoNotSvg));
    assert_eq!(validate_logo("Wiki.svg"), Err(ValidationError::LogoNotFile));
    assert_eq!(validate_logo("File:Example.svg"), Ok(()));
}

#[test]
fn test_safe_host_ignores_registry() {
    // The safe host passes whatever the registry would have answered.
    validate_domain("upload.wikimedia.org", RegistryAnswer::Unreachable).unwrap();
    validate_domain("upload.wikimedia.org", RegistryAnswer::Found).unwrap();
    validate_domain("upload.wikimedia.org", RegistryAnswer::Missing).unwrap();
    validate_domain("people.wikimedia.org", RegistryAnswer::Missing).unwrap();
}

#[test]
fn test_registry_answer_decides_other_hosts() {
    validate_domain("en.wikipedia.org", RegistryAnswer::Found).unwrap();
    validate_domain("en.wikipedia.org", RegistryAnswer::Unreachable).unwrap();
    assert_eq!(
        validate_domain("en.wikipedia.org", RegistryAnswer::Missing),
        Err(ValidationError::InvalidDomain)
    );
}

#[test]
fn test_domain_lookup_url() {
    // A safe host calls for no registry lookup.
    assert_eq!(domain_lookup_url("upload.wikimedia.org"), Ok(None));
    // Any other host is looked up by its full URL.
    assert_eq!(
        domain_lookup_url("en.wikipedia.org"),
        Ok(Some("https://en.wikipedia.org".to_string()))
    );
}

#[test]
fn test_domain_from_url_takes_host() {
    // A candidate written as a URL is reduced to its host component.
    assert_eq!(
        domain_lookup_url("https://en.wikipedia.org/wiki/Main_Page"),
        Ok(Some("https://en.wikipedia.org".to_string()))
    );
    validate_domain("https://upload.wikimedia.org/x/y.png", RegistryAnswer::Missing).unwrap();
    // A bare scheme carries no host.
    assert_eq!(
        validate_domain("https://", RegistryAnswer::Found),
        Err(ValidationError::InvalidDomain)
    );
}

#[test]
fn test_error_messages() {
    assert_eq!(ValidationError::InvalidSkin.message(), "Invalid skin specified");
    assert_eq!(ValidationError::LogoNotSvg.message(), "Logo must be a SVG");
    assert_eq!(ValidationError::LogoNotFile.message(), "Logo must begin with File:");
    assert_eq!(ValidationError::InvalidDomain.message(), "Invalid domain");
}

#[test]
fn test_plan_preview_bad_logo() {
    // The request with an invalid logo is answered with a validation
    // error, never a crash.
    let r = plan_preview(
        "en.wikipedia.org",
        "Bad_logo",
        "timeless",
        RegistryAnswer::Unreachable,
    );
    assert_eq!(r.unwrap_err(), ValidationError::LogoNotSvg);
}

#[test]
fn test_plan_preview_order_and_urls() {
    // Skin is checked first, then the domain, then the logo.
    let r = plan_preview("en.wikipedia.org", "Bad_logo", "nope", RegistryAnswer::Missing);
    assert_eq!(r.unwrap_err(), ValidationError::InvalidSkin);
    let r = plan_preview("en.wikipedia.org", "Bad_logo", "vector", RegistryAnswer::Missing);
    assert_eq!(r.unwrap_err(), ValidationError::InvalidDomain);
    let plan = plan_preview(
        "en.wikipedia.org",
        "File:Wiki.svg",
        "vector",
        RegistryAnswer::Found,
    )
    .unwrap();
    assert_eq!(plan.page_url, "https://en.wikipedia.org/?useskin=vector");
    assert_eq!(
        plan.commons_url,
        "https://commons.wikimedia.org/w/api.php?action=query&format=json&prop=imageinfo&titles=File:Wiki.svg&formatversion=2&iiprop=url&iiurlwidth=135"
    );
}

#[test]
fn test_build_index_passthrough() {
    let d = build_index(
        Some("en.wikipedia.org".to_string()),
        Some("File:Wiki.svg".to_string()),
        RegistryAnswer::Found,
    )
    .unwrap();
    assert_eq!(d.wiki, Some("en.wikipedia.org".to_string()));
    assert_eq!(d.logo, Some("File:Wiki.svg".to_string()));
    let d = build_index(None, None, RegistryAnswer::Missing).unwrap();
    assert_eq!(d.wiki, None);
    assert_eq!(d.logo, None);
    let e = build_index(
        Some("en.wikipedia.org".to_string()),
        Some("Bad_logo".to_string()),
        RegistryAnswer::Found,
    )
    .unwrap_err();
    assert_eq!(e, ValidationError::LogoNotSvg);
}

#[test]
fn test_build_diff_serializes_for_scripts() {
    let d = build_diff(
        Some("upload.wikimedia.org".to_string()),
        None,
        RegistryAnswer::Unreachable,
        RegistryAnswer::Unreachable,
    )
    .unwrap();
    assert_eq!(d.logo1, Some("upload.wikimedia.org".to_string()));
    assert_eq!(d.logo1_safe, Some("\"upload.wikimedia.org\"".to_string()));
    assert_eq!(d.logo2, None);
    assert_eq!(d.logo2_safe, None);
    // Quotes in the value are escaped for the script context.
    let d = build_diff(
        Some("a\"b".to_string()),
        Some("en.wikipedia.org".to_string()),
        RegistryAnswer::Unreachable,
        RegistryAnswer::Found,
    )
    .unwrap();
    assert_eq!(d.logo1_safe, Some("\"a\\\"b\"".to_string()));
    assert_eq!(d.logo2_safe, Some("\"en.wikipedia.org\"".to_string()));
    let e = build_diff(
        Some("en.wikipedia.org".to_string()),
        None,
        RegistryAnswer::Missing,
        RegistryAnswer::Missing,
    )
    .unwrap_err();
    assert_eq!(e, ValidationError::InvalidDomain);
}

#[test]
fn test_healthz() {
    assert_eq!(healthz(), "OK");
}
