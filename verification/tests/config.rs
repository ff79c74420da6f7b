use idk::json::JsonValue;
use serde_json::Value;
use idk::config::check_config;
use idk::cli::{ClearTagsArgs, InputArgs, MergeArgs, MergeTarget, RunOptions, WriteOptions};
use idk::cli::non_blank;
use idk::config::{describe, Config, ConfigError, CopySpec, Merge, MergeSpec, Tags, Violation};
use idk::tag_field::TagField;

fn config(merge: Option<Merge>, copy: Option<CopySpec>) -> Config {
    Config {
        tags: Tags { merge, copy },
    }
}

#[test]
fn reports_missing_sections() {
    let config = config(None, None);
    assert_eq!(config.copy().unwrap_err(), "missing `tags.copy`");
    assert_eq!(
        config.merge("genres").unwrap_err(),
        "missing `tags.merge.genres`"
    );
}

#[test]
fn finds_copy_and_merge_sections() {
    let config = config(
        Some(Merge {
            genres: Some(MergeSpec {
                from: vec!["Heavy Metal".into(), "Metal".into()],
                to: "Rock".into(),
            }),
            artists: Some(MergeSpec {
                from: vec!["Beatles".into()],
                to: "The Beatles".into(),
            }),
        }),
        Some(CopySpec {
            from: TagField::Artist,
            to: TagField::AlbumArtist,
        }),
    );

    let genres = config.merge("genres").unwrap();
    assert_eq!(genres.from, ["Heavy Metal", "Metal"]);
    assert_eq!(genres.to, "Rock");
    assert_eq!(config.merge("artists").unwrap().to, "The Beatles");
    assert_eq!(config.merge("moods").unwrap_err(), "missing `tags.merge.moods`");
    let copy = config.copy().unwrap();
    assert_eq!((&copy.from, &copy.to), (&TagField::Artist, &TagField::AlbumArtist));
}

#[test]
fn errors_print_one_line_per_message() {
    let one = ConfigError::new("idk.yaml", "missing `tags.copy`");
    assert_eq!(one.text(), "idk.yaml: missing `tags.copy`");
    let many = ConfigError::many("c.yaml", vec!["a".into(), "b".into()]);
    assert_eq!(many.text(), "c.yaml: a\nc.yaml: b");
    assert_eq!(ConfigError::many("c.yaml", vec![]).text(), "");
}

fn violation(path: &str, schema: &str, pattern: bool) -> Violation {
    Violation {
        instance_path: path.into(),
        schema_path: schema.into(),
        is_pattern: pattern,
        instance: "\"tpe\"".into(),
        message: "[\"Rock\"] is not of type \"string\"".into(),
    }
}

#[test]
fn describes_violations_with_their_key() {
    assert_eq!(
        describe(&violation("/tags/merge/genres/to", "/properties/to/type", false)),
        "tags.merge.genres.to: [\"Rock\"] is not of type \"string\""
    );
    assert_eq!(
        describe(&violation("/tags/copy/from", "/$defs/TagField/pattern", true)),
        "tags.copy.from: \"tpe\" is not a known tag name"
    );
    assert_eq!(
        describe(&violation("/tags/merge/genres/to", "/$defs/MergeSpec/properties/to/pattern", true)),
        "tags.merge.genres.to: must not be blank"
    );
    assert_eq!(
        describe(&violation("", "/type", false)),
        "[\"Rock\"] is not of type \"string\""
    );
}

fn input() -> InputArgs {
    InputArgs {
        files: vec!["a.mp3".into()],
        recursive: true,
        files_from: None,
    }
}

#[test]
fn merge_targets_name_their_field_and_config_key() {
    let args = MergeArgs {
        from: vec!["Metal".into()],
        to: Some("Rock".into()),
        config: None,
        input: input(),
        run: RunOptions {
            jobs: None,
            quiet: false,
        },
        write: WriteOptions { dry_run: true },
    };
    let (field, key, args) = MergeTarget::Genres(args).into_parts();
    assert_eq!((field, key), (TagField::Genre, "genres"));
    let (field, key, _) = MergeTarget::Artists(args).into_parts();
    assert_eq!((field, key), (TagField::Artist, "artists"));
}

#[test]
fn blank_values_are_rejected() {
    assert_eq!(non_blank("Rock"), Ok("Rock".to_owned()));
    assert_eq!(non_blank(" Rock "), Ok(" Rock ".to_owned()));
    assert_eq!(non_blank("  "), Err("must not be empty".to_owned()));
    assert_eq!(non_blank(""), Err("must not be empty".to_owned()));
    let clear = ClearTagsArgs {
        fields: vec![TagField::Genre],
        input: input(),
        run: RunOptions {
            jobs: Some(4),
            quiet: true,
        },
        write: WriteOptions { dry_run: false },
    };
    assert_eq!(clear.fields, [TagField::Genre]);
}

fn plain(value: serde_json::Value) -> idk::json::JsonValue {
    match value {
        Value::Null => JsonValue::Null,
        Value::Bool(b) => JsonValue::Bool(b),
        Value::Number(n) => JsonValue::Number(n.to_string()),
        Value::String(s) => JsonValue::Text(s),
        Value::Array(items) => JsonValue::Array(items.into_iter().map(plain).collect()),
        Value::Object(members) => {
            JsonValue::Object(members.into_iter().map(|(k, v)| (k, plain(v))).collect())
        }
    }
}

fn schema() -> idk::json::JsonValue {
    plain(
        serde_json::from_str(
            r#"{"type": "object", "required": ["tags"], "additionalProperties": false,
                "properties": {"tags": {"type": "object", "additionalProperties": false,
                  "properties": {"copy": {"type": "object", "properties": {
                    "to": {"type": "string", "pattern": "\\S"}}}}}}}"#,
        )
        .unwrap(),
    )
}

#[test]
fn checks_yaml_against_the_schema() {

    let doc = check_config(&schema(), "tags:\n  copy:\n    to: title\n").unwrap();
    assert!(matches!(doc, JsonValue::Object(ref members) if members[0].0 == "tags"));

    let errors = check_config(&schema(), "copy:\n  to: title\n").unwrap_err();
    assert_eq!(errors.len(), 2, "{errors:?}");
    assert!(errors.iter().any(|e| e.contains("\"tags\" is a required property")), "{errors:?}");

    let errors = check_config(&schema(), "tags:\n  copy:\n    to: \" \"\n").unwrap_err();
    assert_eq!(errors, ["tags.copy.to: must not be blank"]);

    let errors = check_config(&schema(), "tags: [").unwrap_err();
    assert_eq!(errors.len(), 1);

    assert!(check_config(&JsonValue::Text("no schema".into()), "tags: {}").is_err());
}
