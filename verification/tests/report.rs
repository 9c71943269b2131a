use cargo_goodtimes::report::{extract_unit_data, ReportError};
use cargo_goodtimes::text::find_subslice;

#[test]
fn the_block_runs_from_the_marker_to_the_closing_bracket() {
    let html = "<script>\nconst UNIT_DATA = [{\"name\":\"p\"}];\nconst OTHER = [1];\n</script>";
    let block = extract_unit_data(html.as_bytes()).unwrap();
    assert_eq!(b"[{\"name\":\"p\"}]".to_vec(), block);
}

#[test]
fn the_first_marker_and_the_first_closing_count() {
    let html = "const UNIT_DATA = [1];const UNIT_DATA = [2];";
    assert_eq!(b"[1]".to_vec(), extract_unit_data(html.as_bytes()).unwrap());
    let nested = "x const UNIT_DATA = [[1,2],[3]];[4];";
    assert_eq!(
        b"[[1,2],[3]]".to_vec(),
        extract_unit_data(nested.as_bytes()).unwrap()
    );
}

#[test]
fn a_closing_before_the_marker_does_not_count() {
    let html = "];const UNIT_DATA = [];";
    assert_eq!(b"[]".to_vec(), extract_unit_data(html.as_bytes()).unwrap());
    let none_behind = "]; const UNIT_DATA = [1, 2]";
    assert_eq!(
        Err(ReportError::EndNotFound),
        extract_unit_data(none_behind.as_bytes())
    );
}

#[test]
fn the_closing_may_follow_the_marker_at_once() {
    assert_eq!(b"]".to_vec(), extract_unit_data(b"const UNIT_DATA = ];").unwrap());
}

#[test]
fn a_report_without_the_marker_is_refused() {
    for html in ["", "<html></html>", "const UNIT_DATA =[1];", "const unit_data = [1];"] {
        let e = extract_unit_data(html.as_bytes()).unwrap_err();
        assert_eq!(ReportError::MarkerNotFound, e);
        assert_eq!("UNIT_DATA not found in timing HTML", e.message());
    }
}

#[test]
fn a_report_without_the_closing_is_refused() {
    for html in ["const UNIT_DATA = ", "const UNIT_DATA = [1, 2, 3]", "const UNIT_DATA = [1] ;"] {
        let e = extract_unit_data(html.as_bytes()).unwrap_err();
        assert_eq!(ReportError::EndNotFound, e);
        assert_eq!("UNIT_DATA end not found", e.message());
    }
}

#[test]
fn bytes_that_are_no_text_pass_through() {
    let mut report = vec![0xffu8, 0xfe];
    report.extend_from_slice(b"const UNIT_DATA = [");
    report.extend_from_slice(&[0x80, 0x00, 0xc3]);
    report.extend_from_slice(b"];");
    assert_eq!(
        vec![b'[', 0x80, 0x00, 0xc3, b']'],
        extract_unit_data(&report).unwrap()
    );
}

#[test]
fn find_subslice_gives_the_first_position() {
    assert_eq!(Some(0), find_subslice(b"abcabc", b"abc", 0));
    assert_eq!(Some(3), find_subslice(b"abcabc", b"abc", 1));
    assert_eq!(Some(3), find_subslice(b"abcabc", b"abc", 3));
    assert_eq!(None, find_subslice(b"abcabc", b"abc", 4));
    assert_eq!(None, find_subslice(b"abcabc", b"abd", 0));
    assert_eq!(Some(1), find_subslice(b"aab", b"ab", 0));
    assert_eq!(None, find_subslice(b"ab", b"abc", 0));
    assert_eq!(None, find_subslice(b"abc", b"c", 7));
}

#[test]
fn find_subslice_of_nothing() {
    assert_eq!(Some(0), find_subslice(b"abc", b"", 0));
    assert_eq!(Some(3), find_subslice(b"abc", b"", 3));
    assert_eq!(None, find_subslice(b"abc", b"", 4));
    assert_eq!(Some(0), find_subslice(b"", b"", 0));
}
