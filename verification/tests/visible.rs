use lunch::desktopfile::DesktopFile;
use lunch::errors::Error;
use lunch::locale::Locale;
use lunch::visible::{
    applications, deduped_files, name_lt, shown_files, sorted_files, visible_applications,
};

fn file(name: &str, extra: &str) -> DesktopFile {
    let source = format!("[Desktop Entry]\nType=Application\nName={}\nExec=run\n{}", name, extra);
    DesktopFile::read(&source, &Locale::default()).unwrap()
}

fn tagged(files: &[DesktopFile]) -> Vec<(String, Option<String>)> {
    files
        .iter()
        .map(|f| (f.desktop_entry.name.clone(), f.desktop_entry.comment.clone()))
        .collect()
}

fn tag(name: &str, comment: &str) -> (String, Option<String>) {
    (name.to_owned(), Some(comment.to_owned()))
}

#[test]
fn names_are_ordered_like_strings() {
    let names = ["", "a", "A", "aa", "ab", "b", "B", "\u{e9}", "z", "Zebra", "a\u{10000}", "a\u{ffff}"];
    for a in names {
        for b in names {
            assert_eq!(name_lt(&a.to_owned(), &b.to_owned()), a < b, "{:?} < {:?}", a, b);
        }
    }
}

#[test]
fn sorting_is_by_name_and_stable() {
    let files = vec![
        file("b", "Comment=1\n"),
        file("a", "Comment=2\n"),
        file("c", "Comment=3\n"),
        file("a", "Comment=4\n"),
        file("B", "Comment=5\n"),
        file("b", "Comment=6\n"),
    ];
    let mut want = files.clone();
    want.sort_by_key(|f| f.desktop_entry.name.clone());
    let sorted = sorted_files(files);
    assert_eq!(sorted, want);
    assert_eq!(
        tagged(&sorted),
        vec![tag("B", "5"), tag("a", "2"), tag("a", "4"), tag("b", "1"), tag("b", "6"), tag("c", "3")]
    );
    assert_eq!(sorted_files(vec![]), vec![]);
}

#[test]
fn dedup_keeps_the_first_of_each_name() {
    let files = vec![
        file("a", "Comment=1\n"),
        file("a", "Comment=2\n"),
        file("b", "Comment=3\n"),
        file("a", "Comment=4\n"),
        file("a", "Comment=5\n"),
    ];
    let mut want = files.clone();
    want.dedup_by_key(|f| f.desktop_entry.name.clone());
    let deduped = deduped_files(files);
    assert_eq!(deduped, want);
    assert_eq!(tagged(&deduped), vec![tag("a", "1"), tag("b", "3"), tag("a", "4")]);
}

#[test]
fn shown_files_go_by_the_desktop() {
    let files = vec![
        file("plain", ""),
        file("nodisplay", "NoDisplay=true\n"),
        file("hidden", "Hidden=true\n"),
        file("only-here", "OnlyShowIn=GNOME;KDE;\n"),
        file("only-there", "OnlyShowIn=XFCE;\n"),
        file("not-here", "NotShowIn=KDE;\n"),
        file("not-there", "NotShowIn=XFCE;\n"),
        file("both", "OnlyShowIn=KDE;\nNotShowIn=KDE;\n"),
    ];
    let names: Vec<String> =
        shown_files(files, "KDE").into_iter().map(|f| f.desktop_entry.name).collect();
    assert_eq!(names, vec!["plain", "only-here", "not-there"]);
}

#[test]
fn visible_applications_are_sorted_and_come_once() {
    let files = vec![
        file("b", "Comment=1\n"),
        file("a", "Comment=2\nHidden=true\n"),
        file("c", "Comment=3\n"),
        file("a", "Comment=4\n"),
        file("b", "Comment=5\nNoDisplay=true\n"),
    ];
    let apps = visible_applications(files, "KDE").unwrap();
    let got: Vec<(String, Option<String>)> =
        apps.iter().map(|a| (a.app_part.name.clone(), a.app_part.comment.clone())).collect();
    // the first `a` is hidden, and stands for its name all the same
    assert_eq!(got, vec![tag("b", "1"), tag("c", "3")]);
}

#[test]
fn applications_fail_with_the_first_bad_command() {
    let mut bad = file("bad", "");
    bad.desktop_entry.command = Some("\"\"".to_owned());
    let mut worse = file("worse", "");
    worse.desktop_entry.command = None;
    assert_eq!(
        applications(vec![file("a", ""), bad.clone(), worse]),
        Err(Error::InvalidCommandLine("\"\"".to_owned()))
    );
    assert_eq!(applications(vec![file("a", ""), file("b", "")]).unwrap().len(), 2);
    // a file that is not shown does no harm
    bad.desktop_entry.hidden = true;
    assert_eq!(visible_applications(vec![file("a", ""), bad], "KDE").unwrap().len(), 1);
}
