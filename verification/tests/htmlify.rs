use dnguyen_blog::htmlify::{monthify, transcribe};

#[test]
fn lib_it_transcribes_md_as_html() {
    let input = "Hello world, [this is](http://www.google.com/) ~~a~~ *an* example.";
    let result = transcribe(input);
    let expected = "<p>Hello world, <a href=\"http://www.google.com/\" rel=\"noopener noreferrer\">this is</a> <del>a</del> <em>an</em> example.</p>\n";

    assert_eq!(expected, &result);
}

#[test]
fn lib_it_gets_a_month() {
    let a = ["Jan", "Feb", "Mar", "Apr", "May", "Jun", "Jul", "Aug", "Sep", "Oct", "Nov", "Dec"];
    for n in 1..=12 {
        assert_eq!(Some(a[n - 1].to_string()), monthify(n));
    }
}

#[test]
fn lib_it_doesnt_get_month_out_of_bounds() {
    assert_eq!(None, monthify(13));
}

#[test]
fn htmlify_it_gets_a_month() {
    let a = ["Jan", "Feb", "Mar", "Apr", "May", "Jun", "Jul", "Aug", "Sep", "Oct", "Nov", "Dec"];
    for n in 1..=12 {
        assert_eq!(Some(a[n - 1].to_string()), monthify(n));
    }
}

#[test]
fn htmlify_it_doesnt_get_month_out_of_bounds() {
    assert_eq!(None, monthify(13));
}

#[test]
fn monthify_is_none_far_past_december() {
    assert_eq!(None, monthify(usize::MAX));
    assert_eq!(Some("Dec".to_string()), monthify(12));
}

#[test]
fn transcribe_renders_tables() {
    let input = "| a | b |\n|---|---|\n| 1 | 2 |\n";
    let result = transcribe(input);
    assert!(result.contains("<table>"));
    assert!(result.contains("<td>1</td>"));
}

#[test]
fn transcribe_removes_scripts() {
    let result = transcribe("Hi <script>alert(1)</script>");
    assert!(!result.contains("script"));
    assert!(result.starts_with("<p>Hi "));
}

#[test]
fn transcribe_of_empty_text_is_empty() {
    assert_eq!("", transcribe(""));
}
