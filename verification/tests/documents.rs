use compose_yml::host_address::HostAddress;
use compose_yml::port_mapping::PortMapping;
use compose_yml::raw_or::InterpolatableValue;
use compose_yml::aliased_name::AliasedName;
use compose_yml::image::Image;
use compose_yml::volume_mount::{HostVolume, VolumeMount};
use compose_yml::volumes_from::VolumesFrom;
use compose_yml::permissions::VolumePermissions;
use compose_yml::builds::Build;
use compose_yml::command_line::CommandLine;
use compose_yml::context::Context;
use compose_yml::env_file::EnvFile;
use compose_yml::errors::Error;
use compose_yml::extends::Extends;
use compose_yml::file::File;
use compose_yml::healthcheck::Healthcheck;
use compose_yml::helpers::{
    deserialize_item_or_list, deserialize_map_or_default_list,
    deserialize_map_or_key_optional_value_list, deserialize_map_or_key_value_list,
    deserialize_map_struct_or_null, is_false, FromNode, ToNode,
};
use compose_yml::interpolate_all::InterpolateAll;
use compose_yml::interpolation::FixedEnvironment;
use compose_yml::logging::Logging;
use compose_yml::merge_override::MergeOverride;
use compose_yml::network::Network;
use compose_yml::network_interface::NetworkInterface;
use compose_yml::node::Node;
use compose_yml::raw_or::{escape, raw, value, RawOr};
use compose_yml::service::Service;
use compose_yml::ulimit::Ulimit;
use compose_yml::validate::{schema_verdict, schema_version, validate_file, SchemaVersion};
use compose_yml::volume::Volume;

fn node_of(v: &serde_yaml::Value) -> Node {
    match v {
        serde_yaml::Value::Null => Node::Null,
        serde_yaml::Value::Bool(b) => Node::Bool(*b),
        serde_yaml::Value::Number(n) => match n.as_i64() {
            Some(i) => Node::Integer(i),
            None => Node::Real(n.to_string()),
        },
        serde_yaml::Value::String(s) => Node::Text(s.clone()),
        serde_yaml::Value::Sequence(items) => Node::List(items.iter().map(node_of).collect()),
        serde_yaml::Value::Mapping(entries) => Node::Mapping(
            entries
                .iter()
                .map(|(k, v)| {
                    let key = match node_of(k) {
                        Node::Text(s) => s,
                        other => panic!("key is no string: {:?}", other),
                    };
                    (key, node_of(v))
                })
                .collect(),
        ),
    }
}

fn json_of(node: &Node) -> serde_json::Value {
    match node {
        Node::Null => serde_json::Value::Null,
        Node::Bool(b) => serde_json::Value::Bool(*b),
        Node::Integer(i) => serde_json::Value::from(*i),
        Node::Real(text) => serde_json::Value::from(text.parse::<f64>().unwrap()),
        Node::Text(s) => serde_json::Value::String(s.clone()),
        Node::List(items) => serde_json::Value::Array(items.iter().map(json_of).collect()),
        Node::Mapping(entries) => serde_json::Value::Object(
            entries.iter().map(|(k, v)| (k.clone(), json_of(v))).collect(),
        ),
    }
}

fn parse(yaml: &str) -> Node {
    node_of(&serde_yaml::from_str::<serde_yaml::Value>(yaml).unwrap())
}

fn read<T: FromNode>(yaml: &str) -> T {
    match T::from_node(&parse(yaml)) {
        Ok(v) => v,
        Err(e) => panic!("cannot read: {}", e.to_string()),
    }
}

fn assert_roundtrip<T: FromNode + ToNode>(yaml: &str) {
    let data: T = read(yaml);
    let serialized = json_of(&data.to_node());
    let expected: serde_json::Value = serde_yaml::from_str(yaml).unwrap();
    assert_eq!(serialized, expected);
}

#[test]
fn build_has_a_string_representation() {
    let build: Build = Build::from_str(".").unwrap();
    assert_eq!(build.context, value(Context::new(".")));
    assert_eq!(build.dockerfile, None);
    assert_eq!(build.args, Default::default());
}

#[test]
fn build_build_has_a_string_representation() {
    let build: Build = Build::from_str(".").unwrap();
    assert_eq!(build.context, value(Context::new(".")));
    assert_eq!(build.dockerfile, None);
    assert_eq!(build.args, Default::default());
    assert_eq!(build.target, None);
    assert_eq!(build, Build::new(Context::new(".")));
}

#[test]
fn build_may_be_a_bare_string() {
    let build: Build = read("---\n\".\"");
    assert_eq!(build.context, value(Context::new(".")));
}

#[test]
fn build_may_be_a_struct() {
    let build: Build = read("---\ncontext: \".\"");
    assert_eq!(build.context, value(Context::new(".")));
}

#[test]
fn build_build_may_be_a_struct() {
    let yaml = r#"---
args:
  key: value
context: .
dockerfile: Dockerfile
"#;
    assert_roundtrip::<Build>(yaml);

    let build: Build = read(yaml);
    assert_eq!(build.context, value(Context::new(".")));
    assert_eq!(build.dockerfile, Some(value("Dockerfile".to_owned())));
    assert_eq!(
        build.args.get("key").expect("wanted key 'key'").value().unwrap(),
        "value"
    );
}

#[test]
fn a_build_written_as_a_string_is_the_build_written_as_a_struct() {
    let bare: Build = read("\"./app\"");
    let full: Build = read("context: \"./app\"");
    assert_eq!(bare, full);
    assert_eq!(bare.to_node(), Node::Text("./app".to_owned()));
    let with_target: Build = read("context: \"./app\"\ntarget: base");
    assert_eq!(
        json_of(&with_target.to_node()),
        serde_json::from_str::<serde_json::Value>(r#"{"context": "./app", "target": "base"}"#)
            .unwrap()
    );
}

#[test]
fn args_support_stringification_and_interpolation() {
    let yaml = r#"---
context: .
args:
  bool: true
  float: 1.5
  int: 1
  interp: $FOO
"#;
    let build: Build = read(yaml);

    // Check type conversion.
    assert_eq!(
        build.args.get("bool").expect("wanted key 'bool'").value().unwrap(),
        "true"
    );
    assert_eq!(
        build.args.get("float").expect("wanted key 'float'").value().unwrap(),
        "1.5"
    );
    assert_eq!(
        build.args.get("int").expect("wanted key 'int'").value().unwrap(),
        "1"
    );

    // Check interpolation.
    let mut interp: RawOr<String> = build.args.get("interp").expect("wanted key 'interp'").to_owned();
    let mut env = FixedEnvironment::new();
    env.set("FOO", "foo");
    assert_eq!(interp.interpolate_env(&env).unwrap(), "foo")
}

#[test]
fn build_args_may_be_a_key_value_list() {
    let yaml = "---
context: .
args:
  - key=value
";
    let build: Build = read(yaml);
    assert_eq!(
        build.args.get("key").expect("should have key").value().unwrap(),
        "value"
    );
}

#[test]
fn build_build_args_may_be_a_key_value_list() {
    let yaml = "---
context: .
args:
  - key=value
  - other=a=b
";
    let build: Build = read(yaml);
    assert_eq!(
        build.args.get("key").expect("should have key").value().unwrap(),
        "value"
    );
    assert_eq!(build.args.get("other").unwrap().value().unwrap(), "a=b");
}

#[test]
fn command_line_may_be_shell_code() {
    let yaml = r#"---
"ls $DIR"
"#;
    assert_roundtrip::<CommandLine>(yaml);
}

#[test]
fn command_line_may_be_parsed() {
    let yaml = r#"---
- "ls"
- "/"
"#;
    assert_roundtrip::<CommandLine>(yaml);
}

#[test]
fn command_line_command_line_may_be_shell_code() {
    let yaml = r#"---
ls $DIR
"#;
    assert_roundtrip::<CommandLine>(yaml);
    assert_eq!(
        read::<CommandLine>(yaml),
        CommandLine::ShellCode(raw("ls $DIR").unwrap())
    );
}

#[test]
fn command_line_command_line_may_be_parsed() {
    let yaml = r#"---
- ls
- /
"#;
    assert_roundtrip::<CommandLine>(yaml);
    assert_eq!(
        read::<CommandLine>(yaml),
        CommandLine::Parsed(vec![value("ls".to_owned()), value("/".to_owned())])
    );
}

#[test]
fn extends_can_be_roundtripped() {
    let yaml = r#"---
"file": "bar/docker-compose.yml"
"service": "foo"
"#;
    assert_roundtrip::<Extends>(yaml);
}

#[test]
fn extends_extends_can_be_roundtripped() {
    let yaml = r#"---
file: "bar/docker-compose.yml"
service: foo
"#;
    assert_roundtrip::<Extends>(yaml);
    assert_eq!(Extends::new("webdefaults").service, value("webdefaults".to_owned()));
    assert_eq!(
        Extends::from_node(&parse("file: x")).unwrap_err(),
        Error::MissingField("service".to_owned())
    );
}

#[test]
fn file_can_be_converted_from_and_to_yaml() {
    let yaml = r#"---
"version": "2"
"services":
  "foo":
    "build": "."
"volumes":
  "db":
    "external": true
"#;
    assert_roundtrip::<File>(yaml);

    let file: File = read(yaml);
    let foo = file.services.get("foo").unwrap();
    assert_eq!(foo.build.as_ref().unwrap().context, value(Context::new(".")));
}

#[test]
fn file_can_only_load_from_version_2() {
    let yaml = r#"---
"version": "3"
"services":
  "foo":
    "build": "."
"#;
    assert!(File::read(&parse(yaml)).is_err());
}

#[test]
fn file_can_be_converted_from_and_to_yaml_version_2() {
    let yaml = r#"---
services:
  foo:
    build: .
version: "2"
volumes:
  db:
    external: true
"#;
    assert_roundtrip::<File>(yaml);

    let file = File::read(&parse(yaml)).unwrap();
    let foo = file.services.get("foo").unwrap();
    assert_eq!(foo.build.as_ref().unwrap().context, value(Context::new(".")));
}

#[test]
fn file_can_be_converted_from_and_to_yaml_version_2_1() {
    let yaml = r#"---
services:
  foo:
    build: .
version: "2.1"
volumes:
  db:
    external: true
"#;
    assert_roundtrip::<File>(yaml);
}

#[test]
fn file_allows_null_volumes_and_networks() {
    let yaml = r#"---
"services":
  "foo":
    "build": "."
"networks":
  "frontend":
  "internal":
"version": "2"
"volumes":
  "bar":
  "foo":
"#;
    let file = File::read(&parse(yaml)).unwrap();
    assert_eq!(file.volumes.len(), 2);
    assert_eq!(file.networks.len(), 2);
    assert_eq!(file.networks.get("frontend"), Some(&Network::default()));
}

#[test]
fn file_checks_version_number() {
    let yaml = r#"---
"services":
  "foo":
    "build": "."
"version": "100"
"#;
    assert!(File::read(&parse(yaml)).is_err());
    assert_eq!(
        File::read(&parse(yaml)).unwrap_err(),
        Error::UnsupportedVersion("100".to_owned())
    );
}

#[test]
fn versions_have_schemas_and_violations_are_reported() {
    assert_eq!(schema_version("2"), Ok(SchemaVersion::V2));
    assert_eq!(schema_version("2.1"), Ok(SchemaVersion::V2Dot1));
    assert_eq!(schema_version("2.4"), Ok(SchemaVersion::V2Dot4));
    assert_eq!(schema_version("3"), Err(Error::UnsupportedVersion("3".to_owned())));
    assert_eq!(schema_verdict(&vec![], &vec![]), Ok(()));
    assert_eq!(
        schema_verdict(&vec!["a".to_owned(), "b".to_owned()], &vec!["c".to_owned()]),
        Err(Error::DoesNotConformToSchema(
            "\n- validation error: a\n- validation error: b\n- missing c".to_owned()
        ))
    );
    let file = File::default();
    assert_eq!(file.version, "2.4");
    assert_eq!(validate_file(&file, &vec![], &vec![]), Ok(()));
    assert!(validate_file(&file, &vec!["x".to_owned()], &vec![]).is_err());
    assert_eq!(file.write().unwrap(), parse("version: \"2.4\"\nservices: {}"));
    let old = File { version: "1".to_owned(), ..File::default() };
    assert_eq!(old.write(), Err(Error::UnsupportedVersion("1".to_owned())));
}

#[test]
fn healtchcheck_regular() {
    let yaml = r#"---
  test: ["CMD", "curl", "-f", "http://localhost"]
  interval: 1m30s
  timeout: 10s
  retries: 3
  start_period: 40s
"#;
    assert_roundtrip::<Healthcheck>(yaml);
}

#[test]
fn healtchcheck_disable() {
    let yaml = r#"---
  disable: true
"#;
    assert_roundtrip::<Healthcheck>(yaml);
}

#[test]
fn logging_merges_options_on_merge_if_driver_stays_the_same() {
    let yaml1 = r#"---
driver: "d1"
options:
  opt1: "value1"
"#;
    let logging1: Logging = read(yaml1);
    let yaml2 = r#"---
driver: "d1"
options:
  opt2: "value2"
"#;
    let logging2: Logging = read(yaml2);

    let merged = logging1.merge_override(&logging2);
    assert_eq!(merged.driver.unwrap().value().unwrap(), "d1");
    assert_eq!(
        merged.options.get("opt1").expect("should have opt1").value().unwrap(),
        "value1"
    );
    assert_eq!(
        merged.options.get("opt2").expect("should have opt2").value().unwrap(),
        "value2"
    );
}

#[test]
fn logging_clears_options_on_merge_if_driver_changed() {
    let yaml1 = r#"---
driver: "d1"
options:
  opt1: "value1"
"#;
    let logging1: Logging = read(yaml1);
    let yaml2 = r#"---
driver: "d2"
options:
  opt2: "value2"
"#;
    let logging2: Logging = read(yaml2);

    let merged = logging1.merge_override(&logging2);
    assert_eq!(merged.driver.unwrap().value().unwrap(), "d2");
    assert!(merged.options.get("opt1").is_none());
    assert_eq!(
        merged.options.get("opt2").expect("should have opt2").value().unwrap(),
        "value2"
    );
}

#[test]
fn logging_keeps_options_if_the_override_names_no_driver() {
    let base: Logging = read("driver: d1\noptions:\n  opt1: v1\n");
    let ovr: Logging = read("options:\n  opt2: v2\n");
    let merged = base.merge_override(&ovr);
    assert_eq!(merged.driver, Some(value("d1".to_owned())));
    assert_eq!(merged.options.len(), 2);
    assert_eq!(base.merge_override(&base), base);
}

#[test]
fn network_handles_driver_correctly() {
    let yaml = r#"---
"driver": "default"
"enable_ipv6": true
"internal": true
"labels":
  "com.example": "foo"
"#;
    assert_roundtrip::<Network>(yaml);
}

#[test]
fn network_handles_external_true_correctly() {
    let yaml = r#"---
"external": true
"#;
    assert_roundtrip::<Network>(yaml);
}

#[test]
fn network_handles_external_name_correctly() {
    let yaml = r#"---
"external":
  "name": "bridge"
"#;
    assert_roundtrip::<Network>(yaml);
    let off: Network = read("external: false");
    assert_eq!(off.external, None);
    assert_eq!(
        Network::from_node(&parse("external: 3")).unwrap_err(),
        Error::UnexpectedShape { expected: "true or a map".to_owned() }
    );
}

#[test]
fn service_handles_sample_fields_correctly() {
    let yaml = r#"---
"dns":
  - "8.8.8.8"
"dns_search":
  - "example.com"
  - "example.net"
"image": "hello"
"#;
    assert_roundtrip::<Service>(yaml);
}

#[test]
fn service_service_handles_sample_fields_correctly() {
    let yaml = r#"---
dns:
  - 8.8.8.8
dns_search:
  - example.com
  - example.net
image: hello
"#;
    assert_roundtrip::<Service>(yaml);
    let one: Service = read("dns: 8.8.8.8");
    assert_eq!(one.dns, vec![value("8.8.8.8".to_owned())]);
}

#[test]
fn service_env_file_is_renamed() {
    let yaml = r#"---
env_file:
  - foo/bar.env
"#;
    let service: Service = read(yaml);
    assert_eq!(service.env_files.len(), 1);
    assert_eq!(service.env_files[0], escape("foo/bar.env").unwrap());
}

#[test]
fn service_networks_supports_map() {
    let yaml = r#"---
networks:
  backend:
    aliases:
      - hostname2
  frontend: {}
"#;
    assert_roundtrip::<Service>(yaml);
}

#[test]
fn service_networks_supports_list() {
    let yaml = r#"---
"networks":
  - "backend"
"#;
    let service: Service = read(yaml);
    assert_eq!(service.networks.len(), 1);
    assert_eq!(
        service.networks.get("backend").unwrap(),
        &NetworkInterface::default()
    );
}

#[test]
fn service_rejects_what_it_does_not_know() {
    assert_eq!(
        Service::from_node(&parse("imagee: hello")).unwrap_err(),
        Error::UnknownField("imagee".to_owned())
    );
    assert_eq!(
        Service::from_node(&Node::Mapping(vec![
            ("image".to_owned(), Node::Text("a".to_owned())),
            ("image".to_owned(), Node::Text("b".to_owned())),
        ]))
        .unwrap_err(),
        Error::DuplicateKey("image".to_owned())
    );
    assert_eq!(
        Service::from_node(&parse("- a")).unwrap_err(),
        Error::UnexpectedShape { expected: "a service".to_owned() }
    );
    assert_eq!(
        Service::from_node(&parse("image: \"a:b:c\"")).unwrap_err(),
        Error::InvalidValue { wanted: "image".to_owned(), input: "a:b:c".to_owned() }
    );
    assert_eq!(
        Service::from_node(&parse("image: \"${\"")).unwrap_err(),
        Error::InterpolateInvalidSyntax("${".to_owned())
    );
    assert_eq!(
        Service::from_node(&parse("privileged: 1")).unwrap_err(),
        Error::UnexpectedShape { expected: "a boolean".to_owned() }
    );
    assert_eq!(
        Service::from_node(&parse("cpu_shares: -1")).unwrap_err(),
        Error::UnexpectedShape { expected: "a whole number from 0 to 4294967295".to_owned() }
    );
    let service: Service = read("privileged: true\ncpu_shares: 512\nuser: 1000\n");
    assert!(service.privileged);
    assert_eq!(service.cpu_shares, Some(512));
    assert_eq!(service.user, Some(value("1000".to_owned())));
    assert!(is_false(&service.tty));
}

#[test]
fn ulimit_single() {
    let yaml = r#"---
1024
"#;
    assert_roundtrip::<Ulimit>(yaml);
}

#[test]
fn ulimit_pair() {
    let yaml = r#"---
soft: 1024
hard: 2048
"#;
    assert_roundtrip::<Ulimit>(yaml);
    assert_eq!(read::<Ulimit>(yaml), Ulimit::Pair { soft: 1024, hard: 2048 });
    assert_eq!(
        Ulimit::from_node(&parse("soft: 1")).unwrap_err(),
        Error::MissingField("hard".to_owned())
    );
    assert_eq!(Ulimit::Single(1).merge_override(&Ulimit::Single(2)), Ulimit::Single(2));
}

#[test]
fn empty_volume_can_be_converted_from_and_to_yaml() {
    let yaml = r#"---
{}"#;
    assert_roundtrip::<Volume>(yaml);
}

#[test]
fn volume_with_driver_can_be_converted_from_and_to_yaml() {
    let yaml = r#"---
"driver": "sample"
"driver_opts":
  "file_share": "myshare"
"#;
    assert_roundtrip::<Volume>(yaml);
}

#[test]
fn external_volume_can_be_converted_from_and_to_yaml() {
    let yaml = r#"---
"external": true
"#;
    assert_roundtrip::<Volume>(yaml);
}

#[test]
fn volume_empty_volume_can_be_converted_from_and_to_yaml() {
    let yaml = r#"---
{}"#;
    assert_roundtrip::<Volume>(yaml);
    assert_eq!(read::<Volume>(yaml), Volume::default());
}

#[test]
fn volume_volume_with_driver_can_be_converted_from_and_to_yaml() {
    let yaml = r#"---
driver: sample
driver_opts:
  file_share: myshare
labels:
  com.example: foo
"#;
    assert_roundtrip::<Volume>(yaml);
}

#[test]
fn volume_external_volume_can_be_converted_from_and_to_yaml() {
    let yaml = r#"---
external: true
"#;
    assert_roundtrip::<Volume>(yaml);
}

#[test]
fn key_value_lists_may_hold_keys_without_values() {
    let map =
        deserialize_map_or_key_optional_value_list(&parse("- value=1\n- \"-value\"\n")).unwrap();
    assert_eq!(map.len(), 2);
    assert_eq!(map.get("value"), Some(&Some(value("1".to_owned()))));
    assert_eq!(map.get("-value"), Some(&None));
    let map = deserialize_map_or_key_optional_value_list(&parse("a: 1\nb:\n")).unwrap();
    assert_eq!(map.get("a"), Some(&Some(value("1".to_owned()))));
    assert_eq!(map.get("b"), Some(&None));
    assert_eq!(
        deserialize_map_or_key_optional_value_list(&parse("- \"=x\"")).unwrap_err(),
        Error::MalformedPair("=x".to_owned())
    );
    assert_eq!(
        deserialize_map_or_key_optional_value_list(&parse("- a\n- a=1")).unwrap_err(),
        Error::DuplicateKey("a".to_owned())
    );
}

#[test]
fn maps_may_be_written_in_more_than_one_shape() {
    let map = deserialize_map_or_key_value_list(&parse("- a=1\n- b=x=y\n")).unwrap();
    assert_eq!(map.get("a"), Some(&value("1".to_owned())));
    assert_eq!(map.get("b"), Some(&value("x=y".to_owned())));
    assert_eq!(
        deserialize_map_or_key_value_list(&parse("- a=1\n- a=2\n")).unwrap_err(),
        Error::DuplicateKey("a".to_owned())
    );
    assert_eq!(
        deserialize_map_or_key_value_list(&parse("- a\n")).unwrap_err(),
        Error::MalformedPair("a".to_owned())
    );
    assert_eq!(
        deserialize_map_or_key_value_list(&parse("- \"a=$\"\n")).unwrap_err(),
        Error::InterpolateInvalidSyntax("$".to_owned())
    );
    assert_eq!(
        deserialize_map_or_key_value_list(&parse("3")).unwrap_err(),
        Error::UnexpectedShape { expected: "a map or a key/value list".to_owned() }
    );
    assert_eq!(
        deserialize_map_or_key_value_list(&parse("a: [1]")).unwrap_err(),
        Error::UnexpectedShape {
            expected: "a value which can be converted to a string".to_owned()
        }
    );
    let map = deserialize_map_or_key_value_list(&parse("n: -12\nt: true\nr: \"$X\"")).unwrap();
    assert_eq!(map.get("n"), Some(&value("-12".to_owned())));
    assert_eq!(map.get("t"), Some(&value("true".to_owned())));
    assert_eq!(map.get("r"), Some(&raw("$X").unwrap()));

    let list = deserialize_item_or_list::<String>(&parse("one")).unwrap();
    assert_eq!(list, vec![value("one".to_owned())]);
    let list = deserialize_item_or_list::<String>(&parse("- one\n- two")).unwrap();
    assert_eq!(list, vec![value("one".to_owned()), value("two".to_owned())]);
    assert_eq!(
        deserialize_item_or_list::<String>(&parse("a: b")).unwrap_err(),
        Error::UnexpectedShape { expected: "a string or a list of strings".to_owned() }
    );

    let nets = deserialize_map_or_default_list::<NetworkInterface>(&parse("- a\n- b")).unwrap();
    assert_eq!(nets.len(), 2);
    assert_eq!(nets.get("b"), Some(&NetworkInterface::default()));
    assert_eq!(
        deserialize_map_or_default_list::<NetworkInterface>(&parse("x")).unwrap_err(),
        Error::UnexpectedShape { expected: "a map or a list of strings".to_owned() }
    );

    let vols = deserialize_map_struct_or_null::<Volume>(&parse("a:\nb:\n  driver: d")).unwrap();
    assert_eq!(vols.get("a"), Some(&Volume::default()));
    assert_eq!(vols.get("b").unwrap().driver, Some(value("d".to_owned())));
    assert_eq!(
        deserialize_map_struct_or_null::<Volume>(&parse("- a")).unwrap_err(),
        Error::UnexpectedShape { expected: "a map".to_owned() }
    );
}

#[test]
fn interpolating_a_whole_service_stops_at_the_first_failure() {
    let mut service: Service = read(
        "cap_add:\n  - \"$A\"\ncgroup_parent: \"$MISSING\"\ncontainer_name: \"$A\"\n",
    );
    let mut env = FixedEnvironment::new();
    env.set("A", "a");
    let result = service.interpolate_all(&env);
    assert_eq!(
        result,
        Err(compose_yml::errors::InterpolationError::UndefinedVariable("MISSING".to_owned()))
    );
    // What came before the failure is resolved, what comes after is untouched.
    assert_eq!(service.cap_add, vec![value("a".to_owned())]);
    assert_eq!(service.cgroup_parent, Some(raw("$MISSING").unwrap()));
    assert_eq!(service.container_name, Some(raw("$A").unwrap()));
    env.set("MISSING", "m");
    assert_eq!(service.interpolate_all(&env), Ok(()));
    assert_eq!(service.container_name, Some(value("a".to_owned())));
    let resolved = service.clone();
    assert_eq!(service.interpolate_all(&FixedEnvironment::new()), Ok(()));
    assert_eq!(service, resolved);
}

#[test]
fn services_merge_field_by_field() {
    let base: Service = read("image: a\ndns:\n  - 1.1.1.1\nlabels:\n  x: \"1\"\n  y: \"2\"\ntty: true\n");
    let ovr: Service = read("image: b\ndns:\n  - 8.8.8.8\nlabels:\n  y: \"3\"\n  z: \"4\"\n");
    let merged = base.merge_override(&ovr);
    assert_eq!(merged.image, ovr.image);
    assert_eq!(
        merged.dns,
        vec![value("1.1.1.1".to_owned()), value("8.8.8.8".to_owned())]
    );
    assert_eq!(merged.labels.get("x"), Some(&value("1".to_owned())));
    assert_eq!(merged.labels.get("y"), Some(&value("3".to_owned())));
    assert_eq!(merged.labels.get("z"), Some(&value("4".to_owned())));
    // A flag is a scalar: the override wins, also where it is false.
    assert!(!merged.tty);
}

#[test]
fn parses_docker_compatible_env_files() {
    let input = r#"
# This is a comment.
# This is a blank line:

# These are environment variables:
FOO=foo
BAR=2
BAZ

# Docker does not currently do anything special with quotes!
WEIRD="quoted"

# TODO LOW: What if an .env file contains a shell variable interpolation?
"#;
    let env_file = EnvFile::read(input).unwrap();
    let env = env_file.to_environment().unwrap();
    assert_eq!(env.get("FOO").unwrap().as_ref().unwrap().value().unwrap(), "foo");
    assert_eq!(env.get("BAR").unwrap().as_ref().unwrap().value().unwrap(), "2");
    assert_eq!(*env.get("BAZ").unwrap(), None);
    assert_eq!(
        env.get("WEIRD").unwrap().as_ref().unwrap().value().unwrap(),
        "\"quoted\""
    );
}

#[test]
fn env_files_are_read_line_by_line_and_inlined() {
    assert_eq!(
        EnvFile::read("A=1\r\n  :# note\n9A=2\n").unwrap_err(),
        Error::ParseEnv { line: "9A=2".to_owned() }
    );
    let first = EnvFile::read("A=1\nB=$x\nC").unwrap();
    let second = EnvFile::read("A=2 \n").unwrap();
    let mut service: Service = read("env_file:\n  - a.env\n  - b.env\nenvironment:\n  B: mine\n");
    assert_eq!(
        service.env_file_paths().unwrap(),
        vec!["a.env".to_owned(), "b.env".to_owned()]
    );
    service.inline_all(&vec![first, second]);
    assert!(service.env_files.is_empty());
    assert_eq!(service.environment.get("A"), Some(&Some(value("2 ".to_owned()))));
    assert_eq!(service.environment.get("B"), Some(&Some(value("mine".to_owned()))));
    assert_eq!(service.environment.get("C"), Some(&None));
    assert_eq!(service.environment.len(), 3);

    let raw_path: Service = read("env_file: \"$DIR/a.env\"");
    assert_eq!(
        raw_path.env_file_paths().unwrap_err(),
        Error::InterpolationDisabled("$DIR/a.env".to_owned())
    );
}

#[test]
fn a_value_without_a_text_cannot_be_written() {
    let good = PortMapping::new(80, 8080);
    assert!(good.is_valid());
    let bad = PortMapping {
        host_address: Some(HostAddress::new(127, 0, 0, 1)),
        ..PortMapping::any_to(80)
    };
    assert!(!bad.is_valid());
    assert!(value(good).is_writable());
    assert!(!value(bad).is_writable());
    assert!(raw::<PortMapping>("$PORTS").unwrap().is_writable());
    let mut service = Service::default();
    assert!(service.is_writable());
    service.ports.push(value(bad));
    assert!(!service.is_writable());
    let mut file = File::default();
    file.services.insert("web".to_owned(), service);
    assert!(!file.is_writable());

    assert!(AliasedName::new("a", Some("b")).unwrap().is_valid());
    assert!(!AliasedName { name: "".to_owned(), alias: None }.is_valid());
    assert!(Image::new("a.b/c").unwrap().is_valid());
    let looks_like_registry = Image {
        registry_host: None,
        user_name: None,
        name: "a.b/c".to_owned(),
        version: None,
    };
    assert!(!looks_like_registry.is_valid());
    assert!(VolumeMount::host("./a", "/b").is_valid());
    assert!(!VolumeMount::host("a", "/b").is_valid());
    assert!(!VolumeMount::named("a:b", "/b").is_valid());
    assert!(HostVolume::UserRelativePath("x".to_owned()).is_valid());
    assert!(!HostVolume::UserRelativePath("/x".to_owned()).is_valid());
    assert!(VolumesFrom::service("container").is_valid());
    assert!(!VolumesFrom {
        permissions: VolumePermissions::ReadOnly,
        ..VolumesFrom::service("container")
    }
    .is_valid());
    assert!(Context::new("./x").is_valid());
    assert!(!Context::Dir("git://x".to_owned()).is_valid());
}
