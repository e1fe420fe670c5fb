use cargo_lookup::{
    index_lines, one, Dependency, Error, Features, Package, Query, Release, Version, VersionReq,
};
use serde_json::Value;

const LIBC_INDEX: &str =
    "{\"name\":\"libc\",\"vers\":\"0.1.8\",\"deps\":[],\"cksum\":\"aa01\",\"features\":{\"cargo-build\":[],\"default\":[\"cargo-build\"]},\"yanked\":false}\n\
{\"name\":\"libc\",\"vers\":\"0.1.11\",\"deps\":[{\"name\":\"gcc\",\"req\":\"^0.3\",\"features\":[],\"optional\":true,\"default_features\":true,\"target\":null,\"kind\":\"build\"}],\"cksum\":\"bb02\",\"features\":{},\"yanked\":true}\n\
\n\
{\"name\":\"libc\",\"vers\":\"0.1.12\",\"deps\":[],\"cksum\":\"cc03\",\"features\":{\"default\":[]},\"yanked\":false,\"links\":null,\"v\":2,\"features2\":{\"std\":[\"dep:x\"]},\"rust_version\":\"1.56\"}\r\n";

fn text_of(value: &Value, key: &str) -> Result<String, Error> {
    match value.get(key).and_then(Value::as_str) {
        Some(text) => Ok(text.to_owned()),
        None => Err(Error::Deserialize(format!("missing field `{key}`"))),
    }
}

fn optional_text(value: &Value, key: &str) -> Option<String> {
    value.get(key).and_then(Value::as_str).map(str::to_owned)
}

fn texts(value: &Value) -> Vec<String> {
    match value.as_array() {
        Some(items) => items.iter().filter_map(Value::as_str).map(str::to_owned).collect(),
        None => Vec::new(),
    }
}

fn features_of(value: Option<&Value>) -> Option<Features> {
    let map = value?.as_object()?;
    Some(map.iter().map(|(name, enables)| (name.clone(), texts(enables))).collect())
}

fn dependency_of(value: &Value) -> Result<Dependency, Error> {
    Ok(Dependency {
        name: text_of(value, "name")?,
        req: VersionReq::parse(&text_of(value, "req")?)?,
        features: value.get("features").map(texts).unwrap_or_default(),
        optional: value.get("optional").and_then(Value::as_bool).unwrap_or(false),
        default_features: value.get("default_features").and_then(Value::as_bool).unwrap_or(true),
        target: optional_text(value, "target"),
        kind: optional_text(value, "kind"),
        registry: optional_text(value, "registry"),
        package: optional_text(value, "package"),
    })
}

fn decode(line: &Vec<u8>) -> Result<Release, Error> {
    let value: Value = match serde_json::from_slice(line) {
        Ok(value) => value,
        Err(error) => return Err(Error::Deserialize(error.to_string())),
    };
    let mut deps = Vec::new();
    for dep in value.get("deps").and_then(Value::as_array).cloned().unwrap_or_default() {
        deps.push(dependency_of(&dep)?);
    }
    Ok(Release {
        name: text_of(&value, "name")?,
        vers: Version::parse(&text_of(&value, "vers")?)?,
        deps,
        cksum: text_of(&value, "cksum")?,
        features: features_of(value.get("features")).unwrap_or_default(),
        yanked: value.get("yanked").and_then(Value::as_bool).unwrap_or(false),
        links: optional_text(&value, "links"),
        v: match value.get("v").and_then(Value::as_u64) {
            Some(v) => v as u32,
            None => one(),
        },
        features2: features_of(value.get("features2")),
        rust_version: match optional_text(&value, "rust_version") {
            Some(text) => Some(VersionReq::parse(&text)?),
            None => None,
        },
    })
}

fn package_of(content: &str) -> Result<Package, Error> {
    Package::from_index(content, decode)
}

fn release(name: &str, vers: &str, yanked: bool) -> Release {
    Release {
        name: name.to_owned(),
        vers: Version::parse(vers).expect("version"),
        deps: Vec::new(),
        cksum: String::new(),
        features: Features::new(),
        yanked,
        links: None,
        v: one(),
        features2: None,
        rust_version: None,
    }
}

fn catalog() -> Package {
    Package::from_records(vec![
        Ok(release("libc", "0.1.8", false)),
        Ok(release("libc", "0.1.11", true)),
        Ok(release("libc", "0.1.12", false)),
    ])
    .expect("package from index")
}

#[test]
fn test_get_specific_release() {
    let pkg = Package::from_index(LIBC_INDEX, decode).expect("package from index");

    assert_eq!(pkg.name(), "libc");
    assert_eq!(pkg.index_path(), "li/bc/libc");
    assert!(
        pkg.version(&VersionReq::parse("=0.1.11").expect("semver"))
            .expect("matching libc version")
            .yanked
    );
}

#[test]
fn test_get_latest_matching_release() {
    let pkg = Package::from_index(LIBC_INDEX, decode).expect("package from index");

    assert_eq!(pkg.name(), "libc");
    assert_eq!(pkg.index_path(), "li/bc/libc");
    assert_eq!(
        pkg.version(&VersionReq::parse("0.1.0").expect("semver"))
            .expect("release")
            .vers,
        Version::parse("0.1.12").expect("version")
    );
}

#[test]
fn index_file_is_read_in_order() {
    let pkg = package_of(LIBC_INDEX).expect("package from index");
    let versions: Vec<&str> = pkg.releases().iter().map(|r| r.vers.as_str()).collect();
    assert_eq!(versions, vec!["0.1.8", "0.1.11", "0.1.12"]);
    let newest = pkg.latest().expect("latest");
    assert_eq!(newest.v, 2);
    assert_eq!(newest.rust_version.as_ref().expect("rust version").as_str(), "1.56");
    assert_eq!(newest.features2.as_ref().expect("features2")["std"], vec!["dep:x"]);
    assert_eq!(pkg.releases()[0].v, 1);
    assert_eq!(pkg.releases()[0].features["default"], vec!["cargo-build"]);
    assert_eq!(pkg.releases()[0].features.len(), 2);
    assert_eq!(pkg.releases()[1].deps[0].name, "gcc");
    assert_eq!(pkg.releases()[1].deps[0].effective_name(), "gcc");
}

#[test]
fn matching_returns_the_newest_match() {
    let found = catalog().into_version(&VersionReq::parse("^0.1.0").expect("semver")).expect("release");
    assert_eq!(found.vers.as_str(), "0.1.12");
    assert!(!found.yanked);
}

#[test]
fn matching_does_not_pass_over_a_yanked_release() {
    let pkg = catalog();
    let found = pkg.version(&VersionReq::parse("=0.1.11").expect("semver")).expect("release");
    assert_eq!(found.vers.as_str(), "0.1.11");
    assert!(found.yanked);
    let below = pkg.version(&VersionReq::parse("<0.1.12").expect("semver")).expect("release");
    assert_eq!(below.vers.as_str(), "0.1.11");
}

#[test]
fn matching_nothing_is_none() {
    let pkg = catalog();
    assert!(pkg.version(&VersionReq::parse("^0.2").expect("semver")).is_none());
    assert!(pkg.into_version(&VersionReq::parse("=0.1.9").expect("semver")).is_none());
}

#[test]
fn latest_is_the_last_release() {
    let pkg = catalog();
    assert_eq!(pkg.latest().expect("latest").vers.as_str(), "0.1.12");
    assert_eq!(pkg.releases().len(), 3);
    assert_eq!(pkg.into_latest().expect("latest").vers.as_str(), "0.1.12");
}

#[test]
fn latest_goes_by_position_not_by_version() {
    let pkg = Package::from_records(vec![
        Ok(release("libc", "0.2.0", false)),
        Ok(release("libc", "0.1.12", false)),
    ])
    .expect("package from index");
    assert_eq!(pkg.latest().expect("latest").vers.as_str(), "0.1.12");
    let found = pkg.version(&VersionReq::parse("*").expect("semver")).expect("release");
    assert_eq!(found.vers.as_str(), "0.1.12");
}

#[test]
fn empty_index_is_an_error() {
    assert!(matches!(package_of(""), Err(Error::EmptyIndex)));
    assert!(matches!(Package::from_records(Vec::new()), Err(Error::EmptyIndex)));
}

#[test]
fn index_of_blank_lines_is_empty() {
    assert!(matches!(package_of("\n\n\r\n\n"), Err(Error::EmptyIndex)));
}

#[test]
fn decoding_stops_at_the_first_failure() {
    let seen = std::cell::Cell::new(0);
    let outcome = Package::from_index("one\ntwo\nthree\n", |line: &Vec<u8>| {
        seen.set(seen.get() + 1);
        if line == b"one" {
            Ok(release("libc", "0.1.8", false))
        } else {
            Err(Error::Deserialize(String::from_utf8_lossy(line).into_owned()))
        }
    });
    match outcome {
        Err(Error::Deserialize(text)) => assert_eq!(text, "two"),
        other => panic!("unexpected: {other:?}"),
    }
    assert_eq!(seen.get(), 2);
}

#[test]
fn empty_index_is_an_error_whatever_the_decoder() {
    let outcome = Package::from_index("", |_line: &Vec<u8>| Err(Error::Io(String::from("unused"))));
    assert!(matches!(outcome, Err(Error::EmptyIndex)));
}

#[test]
fn malformed_record_fails_the_index() {
    let content = "{\"name\":\"libc\",\"vers\":\"0.1.8\",\"cksum\":\"aa\"}\n{oops\n";
    match package_of(content) {
        Err(Error::Deserialize(text)) => assert!(!text.is_empty()),
        other => panic!("unexpected: {other:?}"),
    }
}

#[test]
fn first_failed_record_is_the_error() {
    let records = vec![
        Ok(release("libc", "0.1.8", false)),
        Err(Error::Deserialize(String::from("first"))),
        Ok(release("libc", "0.1.12", false)),
        Err(Error::Deserialize(String::from("second"))),
    ];
    match Package::from_records(records) {
        Err(Error::Deserialize(text)) => assert_eq!(text, "first"),
        other => panic!("unexpected: {other:?}"),
    }
}

#[test]
fn package_is_named_after_its_last_release() {
    let pkg = Package::from_records(vec![
        Ok(release("Old-Name", "1.0.0", false)),
        Ok(release("New-Name", "1.1.0", false)),
    ])
    .expect("package from index");
    assert_eq!(pkg.name(), "New-Name");
    assert_eq!(pkg.index_path(), "ne/w-/new-name");
}

#[test]
fn lines_are_cut_at_line_feeds() {
    let lines = index_lines(b"a\nbc\r\n\n\r\nd\r");
    assert_eq!(lines, vec![b"a".to_vec(), b"bc".to_vec(), b"d\r".to_vec()]);
}

#[test]
fn lines_of_nothing() {
    assert!(index_lines(b"").is_empty());
    assert!(index_lines(b"\n").is_empty());
    assert_eq!(index_lines(b"\r"), vec![b"\r".to_vec()]);
    assert_eq!(index_lines(b"x"), vec![b"x".to_vec()]);
    assert_eq!(index_lines(b"\r\r\n"), vec![b"\r".to_vec()]);
}

#[test]
fn select_without_requirement_is_the_latest() {
    let query = Query::from_str("libc").expect("parse query");
    assert_eq!(query.select(catalog()).expect("release").vers.as_str(), "0.1.12");
}

#[test]
fn select_with_requirement_is_the_newest_match() {
    let query = Query::from_str("libc@<0.1.11").expect("parse query");
    assert_eq!(query.select(catalog()).expect("release").vers.as_str(), "0.1.8");
    let query = Query::from_str("libc@^1").expect("parse query");
    assert!(query.select(catalog()).is_none());
}

#[test]
fn default_schema_version_is_one() {
    assert_eq!(one(), 1);
}

#[test]
fn renamed_dependency_is_looked_up_under_its_package() {
    let dependency = Dependency {
        name: String::from("alias"),
        req: VersionReq::parse("^1").expect("semver"),
        features: Vec::new(),
        optional: false,
        default_features: true,
        target: None,
        kind: None,
        registry: None,
        package: Some(String::from("real")),
    };
    assert_eq!(dependency.effective_name(), "real");
}

#[test]
fn release_answers_by_name_and_version() {
    let libc = release("libc", "0.1.12", false);
    let caret = VersionReq::parse("^0.1").expect("semver");
    assert!(libc.is_answer_to("libc", &caret));
    assert!(!libc.is_answer_to("Libc", &caret));
    assert!(!libc.is_answer_to("libc", &VersionReq::parse("^0.2").expect("semver")));
}
