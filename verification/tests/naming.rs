use captastic::clock::{civil_date_from_unix_days, utc_parts};
use captastic::filename_template::{
    expand, finalize_stem, is_inside, resolve, sanitize_field, validate_template, TemplateContext,
    FALLBACK_STEM, MAX_FIELD_CHARS, MAX_STEM_CHARS,
};
use captastic::path::{FilePath, PathPart};

fn path(text: &str) -> FilePath {
    let parts = std::path::Path::new(text)
        .components()
        .map(|part| match part {
            std::path::Component::Prefix(prefix) => {
                PathPart::Prefix(prefix.as_os_str().to_string_lossy().into_owned())
            }
            std::path::Component::RootDir => PathPart::Root,
            std::path::Component::CurDir => PathPart::Current,
            std::path::Component::ParentDir => PathPart::Parent,
            std::path::Component::Normal(name) => {
                PathPart::Normal(name.to_string_lossy().into_owned())
            }
        })
        .collect();
    FilePath { parts }
}

fn context() -> TemplateContext<'static> {
    TemplateContext {
        timestamp_micros: 1_786_921_500_348_000,
        display: "primary",
        mode: "region",
        width: 1920,
        height: 1080,
        application: None,
        title: None,
    }
}

#[test]
fn splits_the_epoch_and_a_leap_day() {
    assert_eq!(utc_parts(0), (1970, 1, 1, 0, 0, 0, 0));
    assert_eq!(
        utc_parts(1_709_164_800_000_001),
        (2024, 2, 29, 0, 0, 0, 0),
        "2024 is a leap year and 29 February must exist"
    );
    assert_eq!(
        utc_parts(1_709_251_199_999_000),
        (2024, 2, 29, 23, 59, 59, 999),
        "the last millisecond of the leap day"
    );
}

#[test]
fn dates_before_the_epoch_do_not_wrap() {
    assert_eq!(utc_parts_of_seconds(-1), (1969, 12, 31, 23, 59, 59));
    assert_eq!(utc_parts_of_seconds(-86_400), (1969, 12, 31, 0, 0, 0));
}

fn utc_parts_of_seconds(seconds: i64) -> (i64, i64, i64, i64, i64, i64) {
    let days = seconds.div_euclid(86_400);
    let seconds_of_day = seconds.rem_euclid(86_400);
    let (year, month, day) = civil_date_from_unix_days(days);
    (
        year,
        month,
        day,
        seconds_of_day / 3_600,
        (seconds_of_day % 3_600) / 60,
        seconds_of_day % 60,
    )
}

#[test]
fn days_follow_each_other_in_the_calendar() {
    let mut before = civil_date_from_unix_days(-800_000);
    for days in -799_999..800_000i64 {
        let date = civil_date_from_unix_days(days);
        assert!(before < date, "{before:?} does not come before {date:?}");
        assert!(date.1 >= 1 && date.1 <= 12 && date.2 >= 1 && date.2 <= 31);
        before = date;
    }
    assert_eq!(civil_date_from_unix_days(19_723), (2024, 1, 1));
    assert_eq!(civil_date_from_unix_days(-25_509), (1900, 2, 28));
    assert_eq!(civil_date_from_unix_days(-25_508), (1900, 3, 1));
}

#[test]
fn the_default_shape_expands_to_something_sortable() {
    let stem = expand("captastic-{timestamp}", &context());
    assert_eq!(stem, "captastic-20260816-230500-348");
}

#[test]
fn every_token_resolves() {
    let mut context = context();
    context.application = Some("Firefox");
    context.title = Some("Some Page");
    assert_eq!(
        expand(
            "{date}_{time}_{display}_{mode}_{width}x{height}_{application}_{title}",
            &context
        ),
        "20260816_230500-348_primary_region_1920x1080_Firefox_Some-Page"
    );
}

#[test]
fn a_hostile_window_title_cannot_escape_the_directory() {
    let directory = path("C:/captures");
    let hostile = [
        "../../../Windows/System32/evil",
        "..\\..\\secrets",
        "/etc/passwd",
        "C:\\Windows\\System32\\drivers\\etc\\hosts",
        "a/../../b",
        "....//....//x",
    ];
    for title in hostile {
        let mut context = context();
        context.title = Some(title);
        let stem = expand("{title}", &context);

        assert!(
            !stem.contains('/') && !stem.contains('\\'),
            "{title:?} produced a separator: {stem:?}"
        );
        assert!(
            !stem.contains(".."),
            "{title:?} kept a parent hop: {stem:?}"
        );
        let path = resolve(&directory, &stem, "png").expect("a sanitized stem resolves");
        assert_eq!(
            path.parent(),
            Some(directory.clone()),
            "{title:?} escaped to {path:?}"
        );
    }
}

#[test]
fn reserved_device_names_are_defused() {
    let reserved_stems = ["con", "prn", "aux", "nul", "com1", "com9", "lpt1", "lpt9"];
    for reserved in ["nul", "NUL", "con", "Com1", "LPT9", "aux"] {
        let mut context = context();
        context.title = Some(reserved);
        let stem = expand("{title}", &context);
        let leading = stem.split('.').next().unwrap_or(&stem).to_ascii_lowercase();
        assert!(
            !reserved_stems.contains(&leading.as_str()),
            "{reserved} survived as {stem}"
        );
    }
    let mut context = context();
    context.title = Some("console-log");
    assert_eq!(expand("{title}", &context), "console-log");
}

#[test]
fn trailing_dots_and_spaces_are_removed() {
    for title in ["report.", "report ", "report. . ", "report..."] {
        let mut context = context();
        context.title = Some(title);
        let stem = expand("{title}", &context);
        assert!(
            !stem.ends_with('.') && !stem.ends_with(' '),
            "{title:?} produced {stem:?}"
        );
    }
}

#[test]
fn control_characters_and_forbidden_punctuation_collapse_to_separators() {
    let mut context = context();
    context.title = Some("a<b>c:d\"e|f?g*h\u{7}i");
    let stem = expand("{title}", &context);
    assert_eq!(stem, "a-b-c-d-e-f-g-h-i");
    assert!(!stem.chars().any(char::is_control));
}

#[test]
fn a_title_that_sanitizes_to_nothing_still_produces_a_name() {
    for title in ["", "   ", "...", "///", "<<<>>>"] {
        let mut context = context();
        context.title = Some(title);
        let stem = expand("{title}", &context);
        assert!(!stem.is_empty(), "{title:?} produced an empty stem");
        assert_eq!(stem, FALLBACK_STEM);
    }
}

#[test]
fn long_values_are_bounded_per_field_and_overall() {
    let long = "x".repeat(500);
    let mut context = context();
    context.title = Some(&long);
    context.application = Some(&long);
    let stem = expand("{application}-{title}-{timestamp}", &context);
    assert!(stem.chars().count() <= MAX_STEM_CHARS, "{}", stem.len());
    assert!(stem.starts_with(&"x".repeat(MAX_FIELD_CHARS)));
}

#[test]
fn filename_template_unknown_tokens_are_rejected_when_the_configuration_loads() {
    assert!(validate_template("captastic-{tilte}").is_err());
    assert!(validate_template("captastic-{timestamp}").is_ok());
    assert!(validate_template("{date}/{time}").is_err(), "separators");
    assert!(validate_template("{date}").is_ok());
    assert!(validate_template("").is_err(), "empty");
    assert!(validate_template("   ").is_err(), "blank");
    assert!(validate_template("screenshot").is_err(), "no token");
    assert!(validate_template("{timestamp").is_err(), "unclosed");
    assert!(validate_template("timestamp}").is_err(), "unmatched close");
}

#[test]
fn unknown_tokens_are_rejected_when_the_configuration_loads() {
    assert!(validate_template("captastic-{tilte}").is_err());
    assert!(validate_template("captastic-{timestamp}").is_ok());
    assert!(validate_template("{date}/{time}").is_err(), "separators");
    assert!(validate_template("{date}").is_ok());
    assert!(validate_template("").is_err(), "empty");
    assert!(validate_template("   ").is_err(), "blank");
    assert!(validate_template("screenshot").is_err(), "no token");
    assert!(validate_template("{timestamp").is_err(), "unclosed");
    assert!(validate_template("timestamp}").is_err(), "unmatched close");
}

#[test]
fn a_faulty_template_is_quoted_in_its_error() {
    let error = validate_template("a\"{tilte}").expect_err("an unknown token");
    assert!(error.contains("tilte"), "{error}");
    let error = validate_template("say \"hi\"}").expect_err("an unmatched brace");
    assert!(error.contains("\\\"hi\\\""), "{error}");
}

#[test]
fn containment_compares_components_rather_than_prefixes() {
    let directory = path("C:/captures");
    assert!(is_inside(&directory, &directory.join("a.png")));
    assert!(!is_inside(&directory, &path("C:/captures-elsewhere/a.png")));
    assert!(!is_inside(
        &directory,
        &directory.join("nested").join("a.png")
    ));
    assert!(!is_inside(&directory, &path("C:/captures/../other/a.png")));
}

#[test]
fn resolving_refuses_a_stem_that_would_land_elsewhere() {
    let directory = path("C:/captures");
    assert!(resolve(&directory, "ok", "png").is_some());
    assert!(resolve(&directory, "../escape", "png").is_none());
    assert!(resolve(&directory, "nested/deep", "png").is_none());
}

#[test]
fn a_resolved_capture_is_a_child_of_its_directory() {
    let directory = path("/home/someone/Pictures");
    assert_eq!(
        resolve(&directory, "captastic-20260816-230500-348", "png"),
        Some(directory.join("captastic-20260816-230500-348.png"))
    );
    assert_eq!(resolve(&directory, "/etc/passwd", "png"), None);
}

#[test]
fn valid_templates_make_safe_names_of_any_title() {
    let titles = ["..", ".", "con", "a.b. ", "\u{202e}evil", "tab\there", "ÄÖÜ"];
    for template in ["{title}", "x {title} {date}", "{title}{title}{application}"] {
        validate_template(template).expect(template);
        for title in titles {
            let mut context = context();
            context.title = Some(title);
            context.application = Some(title);
            let stem = expand(template, &context);
            assert!(!stem.is_empty());
            assert!(!stem.contains('/') && !stem.contains('\\'));
            assert!(!stem.ends_with('.') && !stem.ends_with(' '), "{stem:?}");
            assert!(stem.chars().count() <= MAX_STEM_CHARS);
        }
    }
}

#[test]
fn a_reserved_name_is_marked_before_its_extension() {
    assert_eq!(finalize_stem("nul"), "nul-capture");
    assert_eq!(finalize_stem("nul.x"), "nul-capture.x");
    assert_eq!(finalize_stem("Com1.a.b"), "Com1-capture.a.b");
    assert_eq!(finalize_stem("nullable.x"), "nullable.x");
}

#[test]
fn a_marked_stem_keeps_to_its_length() {
    let template = format!("con.{}{{date}}", "x".repeat(120));
    validate_template(&template).expect("a valid template");
    let stem = expand(&template, &context());
    assert_eq!(stem.chars().count(), MAX_STEM_CHARS);
    assert!(stem.starts_with("con-capture.xxx"), "{stem}");
    let dotted = finalize_stem(&format!("con.{}{}", "x".repeat(106), "..yz"));
    assert_eq!(dotted, format!("con-capture.{}", "x".repeat(106)));
}

#[test]
fn a_field_keeps_to_its_length() {
    let letters = "x".repeat(MAX_FIELD_CHARS - 1);
    assert_eq!(sanitize_field(&format!("{letters} yz")), letters);
    let shorter = "x".repeat(MAX_FIELD_CHARS - 2);
    assert_eq!(sanitize_field(&format!("{shorter} yz")), format!("{shorter}-y"));
    assert_eq!(sanitize_field(&format!("{letters}yz")), format!("{letters}y"));
}

#[test]
fn a_name_is_resolved_by_its_steps() {
    let directory = path("/home/someone/Pictures");
    assert_eq!(
        resolve(&directory, "./a", "png"),
        Some(directory.join("a.png"))
    );
    assert_eq!(resolve(&directory, "a/../b", "png"), None);
    assert_eq!(resolve(&directory, "..", "/x"), None);
    assert_eq!(resolve(&directory, "a/./b", "png"), None);
    assert_eq!(resolve(&path("C:/captures"), "a//b", "png"), None);
}

#[test]
fn default_names_sort_by_the_moment_of_capture() {
    let moments = [
        0,
        999,
        1_000,
        59_999_000,
        86_399_999_000,
        86_400_000_000,
        951_782_399_999_000,
        951_782_400_000_000,
        1_786_921_500_348_000,
        253_402_300_799_999_000,
    ];
    let names: Vec<String> = moments
        .iter()
        .map(|moment| {
            let mut context = context();
            context.timestamp_micros = *moment;
            expand("captastic-{timestamp}", &context)
        })
        .collect();
    assert_eq!(names[0], names[1]);
    for pair in names[1..].windows(2) {
        assert!(pair[0] < pair[1], "{pair:?}");
    }
}

#[test]
fn one_name_resolves_in_a_directory_with_a_drive_or_a_share() {
    for prefix in ["C:", "\\\\server\\share", "\\\\?\\C:"] {
        let directory = FilePath {
            parts: vec![
                PathPart::Prefix(prefix.to_owned()),
                PathPart::Root,
                PathPart::Normal("captures".to_owned()),
            ],
        };
        let found = resolve(&directory, "ok", "png").expect("a direct child");
        assert_eq!(found.parts[..3], directory.parts[..]);
        assert_eq!(found.parts[3..], [PathPart::Normal("ok.png".to_owned())]);
        for stem in ["../escape", "nested/deep", "../../up"] {
            assert_eq!(resolve(&directory, stem, "png"), None, "{prefix} {stem}");
        }
    }
    let upwards = path("/captures/../elsewhere");
    assert_eq!(resolve(&upwards, "ok", "png"), None);
    assert_eq!(
        resolve(&FilePath { parts: Vec::new() }, "ok", "png"),
        Some(path("ok.png"))
    );
}
