use compose_yml::errors::{Error, InterpolationError, InvalidValueError};
use compose_yml::interpolation::{
    escape_str, interpolate_env, interpolate_helper, unescape_str, validate, EmptyEnvironment,
    FixedEnvironment, Mode,
};
use compose_yml::memory_size::MemorySize;
use compose_yml::mode_enum::NetworkMode;
use compose_yml::raw_or::{escape, raw, value, InterpolatableValue, RawOr};

fn foo_env() -> FixedEnvironment {
    let mut env = FixedEnvironment::new();
    env.set("FOO", "foo");
    env.set("NETWORK_MODE", "host");
    env
}

#[test]
fn a_reference_is_kept_until_it_is_interpolated() {
    let mut v: RawOr<String> = raw("$FOO").unwrap();
    assert_eq!(v.to_display_string(), "$FOO");
    assert_eq!(
        v.value(),
        Err(InterpolationError::InterpolationDisabled("$FOO".to_owned()))
    );
    assert_eq!(v.interpolate_env(&foo_env()).unwrap(), "foo");
    assert_eq!(v, value("foo".to_owned()));
    assert_eq!(v.to_display_string(), "foo");
    assert_eq!(v.value().unwrap(), "foo");
}

#[test]
fn an_escaped_reference_is_a_value_at_once() {
    let v: RawOr<String> = raw("$${escaped}").unwrap();
    assert_eq!(v, value("${escaped}".to_owned()));
    assert_eq!(v.value().unwrap(), "${escaped}");
    assert_eq!(v.to_display_string(), "$${escaped}");
    let mut w = v.clone();
    assert_eq!(w.interpolate_env(&EmptyEnvironment {}).unwrap(), "${escaped}");
    assert_eq!(w, v);
}

#[test]
fn an_undefined_variable_is_an_error_and_changes_nothing() {
    let mut env = FixedEnvironment::new();
    env.set("OTHER", "x");
    assert_eq!(
        interpolate_env("$NOSUCH", &env),
        Err(InterpolationError::UndefinedVariable("NOSUCH".to_owned()))
    );
    let mut v: RawOr<String> = raw("a $NOSUCH b").unwrap();
    let before = v.clone();
    assert_eq!(
        v.interpolate_env(&env),
        Err(InterpolationError::UndefinedVariable("NOSUCH".to_owned()))
    );
    assert_eq!(v, before);
}

#[test]
fn interpolating_twice_is_interpolating_once() {
    let mut v: RawOr<NetworkMode> = raw("$NETWORK_MODE").unwrap();
    assert_eq!(v.to_display_string(), "$NETWORK_MODE");
    assert_eq!(v.interpolate_env(&foo_env()).unwrap(), &NetworkMode::Host);
    let once = v.clone();
    // The second time no variable is needed any more.
    assert_eq!(
        v.interpolate_env(&FixedEnvironment::new()).unwrap(),
        &NetworkMode::Host
    );
    assert_eq!(v, once);
    assert_eq!(v.to_display_string(), "host");
}

#[test]
fn what_is_interpolated_must_parse() {
    let mut env = FixedEnvironment::new();
    env.set("SIZE", "lots");
    let mut v: RawOr<MemorySize> = raw("${SIZE}").unwrap();
    assert_eq!(
        v.interpolate_env(&env),
        Err(InterpolationError::UnparsableValue(InvalidValueError::new("memory size", "lots")))
    );
    assert_eq!(v, raw("${SIZE}").unwrap());
    env.set("SIZE", "2k");
    assert_eq!(v.interpolate_env(&env).unwrap().to_bytes(), 2048);
}

#[test]
fn values_are_made_by_value_escape_and_raw() {
    assert_eq!(
        escape::<NetworkMode>("bridge").unwrap().to_display_string(),
        "bridge"
    );
    assert_eq!(value(NetworkMode::Bridge).to_display_string(), "bridge");
    assert_eq!(
        escape::<NetworkMode>("container:$FOO").unwrap().to_display_string(),
        "container:$$FOO"
    );
    assert_eq!(
        raw::<NetworkMode>("$NETWORK_MODE").unwrap().to_display_string(),
        "$NETWORK_MODE"
    );
    assert!(escape::<NetworkMode>("invalid").is_err());
    assert_eq!(
        raw::<NetworkMode>("invalid"),
        Err(InterpolationError::UnparsableValue(InvalidValueError::new("NetworkMode", "invalid")))
    );
    assert_eq!(
        raw::<String>("${"),
        Err(InterpolationError::InvalidSyntax("${".to_owned()))
    );
    let mut mode = value(NetworkMode::Bridge);
    *mode.value_mut().unwrap() = NetworkMode::Host;
    assert_eq!(mode.value_mut().unwrap(), &NetworkMode::Host);
    let mut unresolved: RawOr<NetworkMode> = raw("$X").unwrap();
    assert_eq!(
        unresolved.value_mut(),
        Err(InterpolationError::InterpolationDisabled("$X".to_owned()))
    );
    assert!(raw::<String>("$X").unwrap().same_as(&raw("$X").unwrap()));
    assert!(!raw::<String>("$X").unwrap().same_as(&value("$X".to_owned())));
    assert!(value("a".to_owned()).same_as(&escape("a").unwrap()));
}

#[test]
fn what_is_shown_is_what_was_written() {
    for s in ["plain", "$$escaped", "$${escaped} and $$", "$FOO", "a ${FOO} b $$ c", ""] {
        let v: RawOr<String> = raw(s).unwrap();
        assert_eq!(v.to_display_string(), s);
        // And what is shown reads back as the same.
        assert_eq!(raw::<String>(&v.to_display_string()).unwrap(), v);
    }
    // A size is shown in its shortest form, whatever was written.
    assert_eq!(raw::<MemorySize>("1024").unwrap().to_display_string(), "1k");
}

#[test]
fn a_raw_string_and_the_value_it_would_resolve_to_are_not_equal() {
    let unresolved: RawOr<String> = raw("$FOO").unwrap();
    let mut resolved = unresolved.clone();
    resolved.interpolate_env(&foo_env()).unwrap();
    assert_ne!(unresolved, resolved);
    assert_ne!(unresolved, value("$FOO".to_owned()));
}

#[test]
fn the_three_modes_agree_on_what_is_well_formed() {
    let env = foo_env();
    let cases = [
        "plain", "$", "$$", "$FOO", "${FOO}", "${FOO", "$}", "${}", "${ FOO}", "${FOO }",
        "${FOO!}", "$FOO!", "$1", "$_", "$A", "${A}", "$FOO$FOO", "a$$b$", "$\n", "$é",
    ];
    for s in cases {
        let valid = validate(s).is_ok();
        assert_eq!(
            interpolate_helper(s, Mode::Validate, &env).is_ok(),
            valid,
            "{:?}",
            s
        );
        match interpolate_env(s, &env) {
            Ok(_) => assert!(valid, "{:?}", s),
            Err(InterpolationError::UndefinedVariable(_)) => assert!(valid, "{:?}", s),
            Err(e) => {
                assert!(!valid, "{:?}", s);
                assert_eq!(e, InterpolationError::InvalidSyntax(s.to_owned()));
            }
        }
        match unescape_str(s) {
            Ok(text) => {
                assert!(valid, "{:?}", s);
                assert_eq!(escape_str(&text), s);
                assert_eq!(interpolate_env(s, &env).unwrap(), text);
            }
            Err(InterpolationError::InterpolationDisabled(input)) => {
                assert!(valid, "{:?}", s);
                assert_eq!(input, s);
            }
            Err(e) => assert_eq!(e, InterpolationError::InvalidSyntax(s.to_owned())),
        }
    }
    assert!(validate("$A").is_ok());
    assert!(validate("$_").is_ok());
    assert!(validate("$1").is_err());
    assert!(validate("$\n").is_err());
    assert_eq!(interpolate_env("$FOO!", &env).unwrap(), "foo!");
    assert_eq!(interpolate_env("${FOO}bar$$", &env).unwrap(), "foobar$");
    // Of two problems the later one is reported.
    assert_eq!(
        interpolate_env("$NOSUCH $", &env),
        Err(InterpolationError::InvalidSyntax("$NOSUCH $".to_owned()))
    );
    assert_eq!(
        interpolate_env("$ $NOSUCH", &env),
        Err(InterpolationError::UndefinedVariable("NOSUCH".to_owned()))
    );
    assert_eq!(
        unescape_str("$ $FOO"),
        Err(InterpolationError::InterpolationDisabled("$ $FOO".to_owned()))
    );
}

#[test]
fn errors_say_what_went_wrong() {
    assert_eq!(
        InvalidValueError::new("image", "a:b:c").to_string(),
        "Invalid image: <a:b:c>"
    );
    let e = InterpolationError::InvalidSyntax("$".to_owned());
    assert_eq!(e.description(), "invalid interpolation syntax");
    assert_eq!(e.to_string(), "invalid interpolation syntax: <$>");
    assert_eq!(e.cause(), None);
    let inner = InvalidValueError::new("port", "x");
    let e = InterpolationError::from_invalid_value(inner.clone());
    assert_eq!(e.to_string(), "cannot escape invalid value: Invalid port: <x>");
    assert_eq!(e.cause(), Some(&inner));
    assert_eq!(
        InterpolationError::UndefinedVariable("V".to_owned()).to_string(),
        "undefined environment variable in interpolation: V"
    );
    assert_eq!(
        InterpolationError::InterpolationDisabled("$V".to_owned()).to_string(),
        "cannot parse without interpolating environment variables: <$V>"
    );
    assert_eq!(
        Error::from_interpolation(e),
        Error::InvalidValue { wanted: "port".to_owned(), input: "x".to_owned() }
    );
    assert_eq!(
        Error::from_interpolation(InterpolationError::UndefinedVariable("V".to_owned())),
        Error::InterpolateUndefinedVariable("V".to_owned())
    );
    assert_eq!(
        Error::invalid_value("image", "x").to_string(),
        "invalid image <x>"
    );
    assert_eq!(
        Error::UnsupportedVersion("9".to_owned()).to_string(),
        "unsupported docker-compose.yml version <9>"
    );
    assert_eq!(
        Error::unexpected_shape("a map").to_string(),
        "expected a map"
    );
    assert_eq!(Error::DuplicateKey("k".to_owned()).to_string(), "duplicate map key: k");
    assert_eq!(
        Error::MalformedPair("k".to_owned()).to_string(),
        "expected KEY=value, got: <k>"
    );
    assert_eq!(
        Error::ParseGitUrl { url: "u".to_owned() }.to_string(),
        "not a Docker-compatible git URL <u>"
    );
}

#[test]
fn every_value_type_reads_back_what_it_writes() {
    fn check<T: InterpolatableValue + std::fmt::Debug + PartialEq>(text: &str) {
        let v = T::iv_from_str(text).unwrap();
        assert_eq!(v.fmt_iv(), text);
        assert_eq!(T::iv_from_str(&v.fmt_iv()).unwrap(), v);
    }
    check::<String>("any $ text");
    check::<MemorySize>("3m");
    check::<NetworkMode>("service:web");
    check::<compose_yml::mode_enum::RestartMode>("on-failure:5");
    check::<compose_yml::mode_enum::PidMode>("container:db");
    check::<compose_yml::mode_enum::IpcMode>("host");
    check::<compose_yml::aliased_name::AliasedName>("db:database");
    check::<compose_yml::host_mapping::HostMapping>("host:10.0.0.1");
    check::<compose_yml::port_mapping::PortMapping>("127.0.0.1:8000-8010:80-90/udp");
    check::<compose_yml::image::Image>("registry.example.com:5000/team/app:1.2");
    check::<compose_yml::volume_mount::VolumeMount>("~/data:/data:ro");
    check::<compose_yml::volumes_from::VolumesFrom>("container:web:ro");
    check::<compose_yml::context::Context>("git@github.com:a/b.git#main:sub");
    check::<compose_yml::context::Context>("./dir");
    check::<compose_yml::permissions::DevicePermissions>("rw");
    check::<compose_yml::permissions::VolumePermissions>("ro");
    check::<compose_yml::volume_modes::VolumeModes>("delegated");
    check::<compose_yml::depends_on_service::ServiceCondition>("service_healthy");
}
