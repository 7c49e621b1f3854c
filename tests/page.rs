use seafile_share::page::locate_page_options;

#[test]
fn finds_first_assignment() {
    let page = "<html><script>var a = 1;\nwindow.shared = {\n  pageOptions: {fileName: 'x', n: {a: 1}},\n};\nwindow.shared = {b: 2};</script>";
    let (a, b) = locate_page_options(page.as_bytes()).unwrap();
    assert_eq!(&page[a..b], "window.shared = {\n  pageOptions: {fileName: 'x', n: {a: 1}},\n};");
}

#[test]
fn spaces_are_optional() {
    let page = "x window.shared={};y";
    let (a, b) = locate_page_options(page.as_bytes()).unwrap();
    assert_eq!(&page[a..b], "window.shared={};");
}

#[test]
fn missing_or_unterminated_assignment() {
    assert_eq!(locate_page_options(b""), None);
    assert_eq!(locate_page_options(b"window.shared = {a: 1}"), None);
    assert_eq!(locate_page_options(b"window.other = {a: 1};"), None);
    assert_eq!(locate_page_options(b"window.shared = 3;"), None);
}

#[test]
fn later_assignment_after_a_false_start() {
    let page = "window.shared; window.shared = {k: 'é'};";
    let (a, b) = locate_page_options(page.as_bytes()).unwrap();
    assert_eq!(&page[a..b], "window.shared = {k: 'é'};");
}
