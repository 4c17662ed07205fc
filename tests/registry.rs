use tbf::cdn::{
    bare_hosts, builtin_cdns, cdn_file_format, compile_cdn_list, text_hosts, CdnFileFormat,
};

fn sorted_builtin() -> Vec<String> {
    let mut v = builtin_cdns();
    v.sort();
    v
}

fn hosts_from_file(name: &str, content: &str) -> Option<Vec<String>> {
    let extension = std::path::Path::new(name).extension().map(|e| e.to_str().unwrap().to_string());
    match cdn_file_format(extension) {
        CdnFileFormat::Text => Some(text_hosts(content)),
        CdnFileFormat::Bare => Some(bare_hosts(content)),
        CdnFileFormat::Json => {
            let value: serde_json::Value = serde_json::from_str(content).ok()?;
            Some(value["cdns"].as_array()?.iter().map(|v| v.as_str().unwrap().to_string()).collect())
        }
        CdnFileFormat::Toml => {
            let value: toml::Value = toml::from_str(content).ok()?;
            Some(value["cdns"].as_array()?.iter().map(|v| v.as_str().unwrap().to_string()).collect())
        }
        CdnFileFormat::Yaml => {
            let value: serde_yaml::Value = serde_yaml::from_str(content).ok()?;
            Some(value["cdns"].as_sequence()?.iter().map(|v| v.as_str().unwrap().to_string()).collect())
        }
        CdnFileFormat::Unsupported => None,
    }
}

#[test]
fn compile_cdns() {
    let mut cdn_urls_string = builtin_cdns();
    cdn_urls_string.push("test.cloudflare.net".to_string());
    cdn_urls_string.sort();

    let mut res_txt = compile_cdn_list(hosts_from_file("cdn_test.txt", "test.cloudflare.net\n"));
    res_txt.sort();
    assert_eq!(res_txt, cdn_urls_string, "testing txt file");

    let mut res_json = compile_cdn_list(hosts_from_file("cdn_test.json", "{\n\"cdns\": [\"test.cloudflare.net\"]\n}\n"));
    res_json.sort();
    assert_eq!(res_json, cdn_urls_string, "testing json file");

    let mut res_toml = compile_cdn_list(hosts_from_file("cdn_test.toml", "cdns = [\"test.cloudflare.net\"]\n"));
    res_toml.sort();
    assert_eq!(res_toml, cdn_urls_string, "testing toml file");

    let mut res_yaml1 = compile_cdn_list(hosts_from_file("cdn_test.yaml", "\"cdns\": [\"test.cloudflare.net\"]\n"));
    res_yaml1.sort();
    assert_eq!(res_yaml1, cdn_urls_string, "testing yaml file");

    let mut res_yaml2 = compile_cdn_list(hosts_from_file("cdn_test.yml", "\"cdns\": [\"test.cloudflare.net\"]\n"));
    res_yaml2.sort();
    assert_eq!(res_yaml2, cdn_urls_string, "testing yml file");

    let mut res_png = compile_cdn_list(hosts_from_file("cdn_test.png", ""));
    res_png.sort();
    assert_ne!(res_png, cdn_urls_string, "testing unsupported extension (should be unequal)");
    assert_eq!(res_png, sorted_builtin(), "testing unsupported extension (should be equal)");
}

#[test]
fn registry_without_extras_is_the_builtin_set() {
    let r = compile_cdn_list(None);
    assert_eq!(r, sorted_builtin());
    assert_eq!(r.len(), 28);
    assert_eq!(compile_cdn_list(Some(vec![])), r);
}

#[test]
fn registry_with_one_new_host() {
    let r = compile_cdn_list(Some(vec!["new.example.net".to_string()]));
    let mut expected = sorted_builtin();
    expected.push("new.example.net".to_string());
    expected.sort();
    assert_eq!(r, expected);
    assert_eq!(r.len(), 29);
}

#[test]
fn registry_dedups_and_ignores_order() {
    let a = compile_cdn_list(Some(vec![
        "z.example".to_string(),
        "vod-secure.twitch.tv".to_string(),
        "a.example".to_string(),
        "z.example".to_string(),
    ]));
    let b = compile_cdn_list(Some(vec!["a.example".to_string(), "z.example".to_string()]));
    assert_eq!(a, b);
    assert_eq!(a.len(), 30);
    let mut sorted = a.clone();
    sorted.sort();
    sorted.dedup();
    assert_eq!(a, sorted);
}

#[test]
fn text_and_bare_files() {
    assert_eq!(text_hosts("a\r\nb\n\nc"), vec!["a", "b", "", "c"]);
    assert_eq!(text_hosts("a\n"), vec!["a"]);
    assert!(text_hosts("").is_empty());
    assert_eq!(text_hosts("a\r"), vec!["a\r"]);
    assert_eq!(bare_hosts(" new.example\n"), vec!["new.example"]);
    assert_eq!(bare_hosts("a b\nc"), vec!["abc"]);
    assert!(bare_hosts(" \n\t").is_empty());
    assert_eq!(cdn_file_format(None), CdnFileFormat::Bare);
    assert_eq!(cdn_file_format(Some("yml".to_string())), CdnFileFormat::Yaml);
    assert_eq!(cdn_file_format(Some("png".to_string())), CdnFileFormat::Unsupported);
}
