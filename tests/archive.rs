use ssg::archive::ArchiveBuilder;
use ssg::date::Date;
use ssg::page::PageBuilder;

fn date(year: i16, month: i8, day: i8) -> Date {
    Date { year, month, day }
}

#[test]
fn archive_lists_newest_first() {
    let mut a = ArchiveBuilder::new();
    a.add_article("two".into(), "s2".into(), date(2001, 1, 1));
    a.add_article("three".into(), "s3".into(), date(2002, 6, 1));
    a.add_article("one".into(), "s1".into(), date(2000, 1, 1));
    let sorted = a.into_sorted();
    let slugs: Vec<&str> = sorted.iter().map(|p| p.slug.as_str()).collect();
    assert_eq!(slugs, vec!["s3", "s2", "s1"]);
}

#[test]
fn archive_same_day_later_title_first() {
    let mut a = ArchiveBuilder::new();
    a.add_article("alpha".into(), "a".into(), date(2000, 1, 1));
    a.add_article("beta".into(), "b".into(), date(2000, 1, 1));
    a.add_article("Beta".into(), "c".into(), date(2000, 1, 1));
    let sorted = a.into_sorted();
    let titles: Vec<&str> = sorted.iter().map(|p| p.title.as_str()).collect();
    assert_eq!(titles, vec!["beta", "alpha", "Beta"]);
}

#[test]
fn archive_page_html() {
    let b = PageBuilder::new("Ann", &vec![], "<main></main>").unwrap();
    let mut a = ArchiveBuilder::new();
    a.add_article("Old".into(), "old".into(), date(1999, 5, 6));
    a.add_article("New & shiny".into(), "new".into(), date(2000, 1, 1));
    let page = a.into_html(&b);
    assert!(page.contains("<title>Writing</title>"));
    assert!(page.contains(
        "<main><h1>Writing</h1><p>Posts are in reverse chronological order.</p>\
<ol reversed=\"\" class=\"__article-list\" role=\"list\">\
<li><p class=\"__article-date\"><time datetime=\"2000-01-01\">2000-01-01</time></p>\
<a href=\"new\"><p>New &amp; shiny</p></a></li>\
<li><p class=\"__article-date\"><time datetime=\"1999-05-06\">1999-05-06</time></p>\
<a href=\"old\"><p>Old</p></a></li></ol></main>"
    ));
}

#[test]
fn empty_archive() {
    let b = PageBuilder::new("Ann", &vec![], "<main></main>").unwrap();
    let page = ArchiveBuilder::new().into_html(&b);
    assert!(page.contains("<ol reversed=\"\" class=\"__article-list\" role=\"list\"></ol>"));
}
