use garlemald_client::servers::{ServerDefinition, ServerDefinitions};

fn server(name: &str, address: &str, login_url: &str) -> ServerDefinition {
    ServerDefinition { name: name.to_string(), address: address.to_string(), login_url: login_url.to_string() }
}

fn from_toml(text: &str) -> ServerDefinitions {
    let value: toml::Value = toml::from_str(text).unwrap();
    let mut entries = Vec::new();
    if let Some(list) = value.get("server").and_then(|v| v.as_array()) {
        for s in list {
            let field = |k: &str| s.get(k).and_then(|v| v.as_str()).unwrap_or_default().to_string();
            entries.push(ServerDefinition { name: field("name"), address: field("address"), login_url: field("login_url") });
        }
    }
    ServerDefinitions::from_entries(entries)
}

#[test]
fn parses_default_servers() {
    let defs = ServerDefinitions::load_default().unwrap();
    let local = defs.get("Localhost").expect("Localhost present");
    assert_eq!(local.address, "127.0.0.1");
    assert_eq!(local.login_url, "http://127.0.0.1:54993/login");
    let first = defs.iter().first().expect("at least one server");
    assert_eq!(first.name, "Localhost");
    let meteor = defs.get("Project Meteor").expect("Project Meteor present");
    assert_eq!(meteor.login_url, "http://127.0.0.1:8080/login.php");
}

#[test]
fn parses_multiple_servers() {
    let toml_text = r#"
[[server]]
name = "A"
address = "a.example"
login_url = "https://a/login"

[[server]]
name = "B"
address = "b.example"
login_url = "https://b/login"
"#;
    let defs = from_toml(toml_text);
    assert_eq!(defs.len(), 2);
    assert_eq!(defs.get("A").unwrap().address, "a.example");
    assert_eq!(defs.get("B").unwrap().login_url, "https://b/login");
}

#[test]
fn empty_document_is_empty_set() {
    let defs = from_toml("");
    assert!(defs.is_empty());
}

#[test]
fn later_entries_win_and_blank_names_are_dropped() {
    let defs = ServerDefinitions::from_entries(vec![
        server("Zeta", "z1", "u1"),
        server("", "ignored", "u"),
        server("Alpha", "a", "u2"),
        server("Zeta", "z2", "u3"),
    ]);
    assert_eq!(defs.len(), 2);
    assert_eq!(defs.get("Zeta").unwrap().address, "z2");
    assert!(defs.get("").is_none());
    let names: Vec<&str> = defs.iter().iter().map(|s| s.name.as_str()).collect();
    assert_eq!(names, vec!["Alpha", "Zeta"]);
}

#[test]
fn insert_replaces_by_name() {
    let mut defs = ServerDefinitions::new();
    defs.insert(server("B", "b", "u"));
    defs.insert(server("A", "a", "u"));
    defs.insert(server("B", "b2", "u"));
    assert_eq!(defs.len(), 2);
    assert_eq!(defs.get("B").unwrap().address, "b2");
    assert_eq!(defs.iter()[0].name, "A");
}
