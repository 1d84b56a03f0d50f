use feignhttp::util::{replace, replace_url};

fn pairs(entries: &[(&str, &str)]) -> Vec<(String, String)> {
    entries
        .iter()
        .map(|(k, v)| (k.to_string(), v.to_string()))
        .collect()
}

#[test]
fn test_one_path() {
    let map = pairs(&[("name", "abc")]);
    assert_eq!(replace("/find/{name}", &map), "/find/abc");
}

#[test]
fn test_multipart_path() {
    let map = pairs(&[("id", "1"), ("name", "abc")]);
    assert_eq!(replace("/{name}/{id}", &map), "/abc/1");
}

#[test]
fn test_config() {
    let map = pairs(&[("timeout", "3000")]);
    assert_eq!(replace("{timeout}", &map), "3000");
}

#[test]
fn test_url_replace_test_one_path() {
    let map = pairs(&[("name", "abc")]);
    assert_eq!(replace_url("/find/{name}", &map), "/find/abc");
}

#[test]
fn test_url_replace_test_multipart_path() {
    let map = pairs(&[("id", "1"), ("name", "abc")]);
    assert_eq!(replace_url("/{name}/{id}", &map), "/abc/1");
}

#[test]
fn test_replace_no_placeholder() {
    let map = pairs(&[("name", "abc")]);
    assert_eq!(replace("/find/all", &map), "/find/all");
}
