use idk::schema::schema_reference;

#[test]
fn references_bare_relative_paths_from_current_directory() {
    assert_eq!(schema_reference("idk.yaml.json"), "./idk.yaml.json");
    assert_eq!(schema_reference("../s.json"), "../s.json");
    assert_eq!(schema_reference("/tmp/s.json"), "/tmp/s.json");
}

#[test]
fn dotted_names_are_not_directories() {
    assert_eq!(schema_reference("./s.json"), "./s.json");
    assert_eq!(schema_reference(".hidden.json"), "./.hidden.json");
    assert_eq!(schema_reference("..s.json"), "./..s.json");
    assert_eq!(schema_reference("sub/s.json"), "./sub/s.json");
    assert_eq!(schema_reference("."), ".");
}
