use qa_catalogue::tags::format_tags;

fn strings(v: &[&str]) -> Vec<String> {
    v.iter().map(|s| s.to_string()).collect()
}

#[test]
fn tags_are_joined_with_comma_and_space() {
    assert_eq!(format_tags(&strings(&["sample", "tags", "example"])), "sample, tags, example");
}

#[test]
fn single_tag_stands_alone() {
    assert_eq!(format_tags(&strings(&["faq"])), "faq");
}

#[test]
fn no_tags_give_empty_text() {
    assert_eq!(format_tags(&strings(&[])), "");
    assert_eq!(format_tags(&strings(&["", ""])), ", ");
}
