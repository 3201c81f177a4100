use ssg::date::Date;
use ssg::frontmatter::{Frontmatter, FrontmatterError};

fn date(year: i16, month: i8, day: i8) -> Date {
    Date { year, month, day }
}

#[test]
fn missing_frontmatter() {
    // Parsing should fail if frontmatter is absent
    assert!(Frontmatter::from_text("abc123").is_err());
}

#[test]
fn missing_fields() {
    // Parsing should fail if not all frontmatter fields are present
    assert!(Frontmatter::from_text("---\ntitle: abc\n---").is_err());
    assert!(
        Frontmatter::from_text("---\ntitle: abc\nslug: def\nupdated: 2000-01-01\n---").is_err()
    );
}

#[test]
fn empty_fields() {
    // Parsing should fail if title or slug are empty
    assert!(Frontmatter::from_text("---\ntitle: \nslug: \ncreated: 2000-01-01\n---").is_err());
    assert!(Frontmatter::from_text("---\ntitle:  \nslug:  \ncreated: 2000-01-01\n---").is_err());
}

#[test]
fn invalid_slug() {
    assert!(
        Frontmatter::from_text("---\ntitle: abc\nslug: foo/bar\ncreated: 2000-01-01\n---").is_err()
    );
    assert!(
        Frontmatter::from_text("---\ntitle: abc\nslug: foo\\bar\ncreated: 2000-01-01\n---").is_err()
    );
    assert!(
        Frontmatter::from_text("---\ntitle: abc\nslug: foo:bar\ncreated: 2000-01-01\n---").is_err()
    );
}

#[test]
fn invalid_date() {
    // Parsing should fail if date fields are invalid
    assert!(Frontmatter::from_text("---\ntitle: abc\nslug: def\ncreated: 123xyz\n---").is_err());
    assert!(Frontmatter::from_text(
        "---\ntitle: abc\nslug: def\ncreated: 2020-01-01\nupdated: 123xyz\n---"
    )
    .is_err());
    assert!(Frontmatter::from_text(
        "---\ntitle: abc\nslug: def\ncreated: 123xyz\nupdated: 123xyz\n---"
    )
    .is_err());
    assert!(Frontmatter::from_text("---\ntitle: abc\nslug: def\ncreated: 2000-1-1\n---").is_err());
    assert!(
        Frontmatter::from_text("---\ntitle: abc\nslug: def\ncreated: 2000-02-30\n---").is_err()
    );
}

#[test]
fn no_update_field() {
    assert_eq!(
        Frontmatter::from_text("---\ntitle: abc\nslug: def\ncreated: 2000-01-01\n---")
            .expect("parsing should succeed"),
        Frontmatter {
            title: "abc".into(),
            slug: "def".into(),
            created: date(2000, 1, 1),
            updated: None
        }
    );
}

#[test]
fn update_after_create() {
    // Parsing should fail if the last-updated date precedes the creation date
    assert!(Frontmatter::from_text(
        "---\ntitle: abc\nslug: def\ncreated: 2000-01-01\nupdated: 1900-01-01\n---"
    )
    .is_err());
    assert_eq!(
        Frontmatter::from_text(
            "---\ntitle: abc\nslug: def\ncreated: 2000-01-01\nupdated: 2000-01-01\n---"
        )
        .expect("parsing should succeed"),
        Frontmatter {
            title: "abc".into(),
            slug: "def".into(),
            created: date(2000, 1, 1),
            updated: Some(date(2000, 1, 1))
        }
    );
    assert_eq!(
        Frontmatter::from_text(
            "---\ntitle: abc\nslug: def\ncreated: 2000-01-01\nupdated: 2000-01-02\n---"
        )
        .expect("parsing should succeed"),
        Frontmatter {
            title: "abc".into(),
            slug: "def".into(),
            created: date(2000, 1, 1),
            updated: Some(date(2000, 1, 2))
        }
    );
}

#[test]
fn timezones() {
    // Parsing timezones from date fields is not supported
    assert!(Frontmatter::from_text(
        "---\ntitle: abc\nslug: def\ncreated: 2000-01-01T00:00Z\nupdated: 2000-01-02T00:00-01:00\n---"
    )
    .is_err());
}

#[test]
fn ignore_times() {
    // When times are included in the date fields, the parser recognizes but ignores them.
    assert_eq!(
        Frontmatter::from_text(
            "---\ntitle: abc\nslug: def\ncreated: 2000-01-01T01:00\nupdated: 2000-01-01T00:00\n---"
        )
        .expect("parsing should succeed"),
        Frontmatter {
            title: "abc".into(),
            slug: "def".into(),
            created: date(2000, 1, 1),
            updated: Some(date(2000, 1, 1))
        }
    );
}

#[test]
fn from_fields_reports_each_rule() {
    let d = date(2000, 1, 1);
    assert_eq!(
        Frontmatter::from_fields(String::new(), "def".into(), d, None),
        Err(FrontmatterError::EmptyField)
    );
    assert_eq!(
        Frontmatter::from_fields("abc".into(), "a:b".into(), d, None),
        Err(FrontmatterError::InvalidSlug)
    );
    assert_eq!(
        Frontmatter::from_fields("abc".into(), "def".into(), d, Some(date(1999, 12, 31))),
        Err(FrontmatterError::UpdatedBeforeCreated)
    );
    assert!(Frontmatter::from_fields("abc".into(), "def".into(), d, Some(d)).is_ok());
    assert!(Frontmatter::from_fields("abc".into(), "def".into(), d, Some(date(2000, 1, 2))).is_ok());
}

#[test]
fn from_text_error_kinds() {
    assert_eq!(
        Frontmatter::from_text("---\ntitle: abc\n---"),
        Err(FrontmatterError::MissingField)
    );
    assert_eq!(
        Frontmatter::from_text("---\ntitle: abc\nslug: def\ncreated: 2000-02-30\n---"),
        Err(FrontmatterError::InvalidDate)
    );
    assert_eq!(
        Frontmatter::from_text("---\ntitle: abc\nslug: a/b\ncreated: 2000-02-03\n---"),
        Err(FrontmatterError::InvalidSlug)
    );
}

#[test]
fn date_text_and_order() {
    assert_eq!(date(2000, 1, 2).to_iso_string(), "2000-01-02");
    assert_eq!(date(7, 11, 30).to_iso_string(), "0007-11-30");
    assert!(date(1999, 12, 31).is_before(&date(2000, 1, 1)));
    assert!(!date(2000, 1, 1).is_before(&date(2000, 1, 1)));
}

#[test]
fn numeric_offsets_are_refused() {
    assert_eq!(
        Frontmatter::from_text("---\ntitle: abc\nslug: def\ncreated: 2000-01-01T00:00+05:00\n---"),
        Err(FrontmatterError::InvalidDate)
    );
    assert_eq!(
        Frontmatter::from_text(
            "---\ntitle: abc\nslug: def\ncreated: 2000-01-01\nupdated: 2000-01-02T00:00-01:00\n---"
        ),
        Err(FrontmatterError::InvalidDate)
    );
    assert_eq!(
        Frontmatter::from_text("---\ntitle: abc\nslug: def\ncreated: 2000-01-01T00:00[UTC]\n---"),
        Err(FrontmatterError::InvalidDate)
    );
    assert!(ssg::frontmatter::date_has_zone("2000-01-01T01:00Z"));
    assert!(!ssg::frontmatter::date_has_zone("2000-01-01T01:00"));
}
