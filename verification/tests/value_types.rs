use compose_yml::aliased_name::AliasedName;
use compose_yml::depends_on_service::ServiceCondition;
use compose_yml::memory_size::MemorySize;
use compose_yml::mode_enum::{IpcMode, NetworkMode, PidMode, RestartMode};
use compose_yml::permissions::{DevicePermissions, VolumePermissions};
use compose_yml::volume_modes::VolumeModes;

#[test]
fn aliased_name_can_be_converted_to_and_from_a_string() {
    assert_eq!(
        AliasedName::from_str("foo").unwrap(),
        AliasedName { name: "foo".to_owned(), alias: None }
    );
    assert_eq!(
        AliasedName::from_str("foo:bar").unwrap(),
        AliasedName { name: "foo".to_owned(), alias: Some("bar".to_owned()) }
    );
    assert!(AliasedName::from_str("foo:bar:baz").is_err());

    assert_eq!(AliasedName::new("foo", None).unwrap().to_string(), "foo");
    assert_eq!(
        AliasedName::new("foo", Some("bar")).unwrap().to_string(),
        "foo:bar"
    );
}

#[test]
fn aliased_name_aliased_name_can_be_converted_to_and_from_a_string() {
    assert_eq!(
        AliasedName::from_str("foo").unwrap(),
        AliasedName { name: "foo".to_owned(), alias: None }
    );
    assert_eq!(
        AliasedName::from_str("foo:bar").unwrap(),
        AliasedName { name: "foo".to_owned(), alias: Some("bar".to_owned()) }
    );
    assert!(AliasedName::from_str("foo:bar:baz").is_err());
    assert!(AliasedName::from_str("").is_err());
    assert!(AliasedName::from_str(":bar").is_err());
    assert!(AliasedName::from_str("foo:").is_err());

    assert_eq!(AliasedName::new("foo", None).unwrap().to_string(), "foo");
    assert_eq!(
        AliasedName::new("foo", Some("bar")).unwrap().to_string(),
        "foo:bar"
    );
    assert!(AliasedName::new("fo:o", None).is_err());
    assert!(AliasedName::new("foo", Some("b:ar")).is_err());
    assert_eq!(
        AliasedName::new("fo:o", None).unwrap_err().wanted,
        "aliased name"
    );
}

#[test]
fn service_condition_has_a_string_representation() {
    let pairs = vec![
        (ServiceCondition::ServiceHealthy, "service_healthy"),
        (ServiceCondition::ServiceStarted, "service_started"),
    ];
    for (mode, s) in pairs {
        assert_eq!(mode.to_string(), s);
        assert_eq!(mode, ServiceCondition::from_str(s).unwrap());
    }
    let err = ServiceCondition::from_str("service_gone").unwrap_err();
    assert_eq!(err.wanted, "depends_on service condition");
    assert_eq!(err.input, "service_gone");
}

#[test]
fn memory_size_supports_string_serialization() {
    let pairs = vec![
        (MemorySize::bytes(0), "0"),
        (MemorySize::bytes(1), "1"),
        (MemorySize::bytes(1023), "1023"),
        (MemorySize::bytes(1024), "1k"),
        (MemorySize::kb(1), "1k"),
        (MemorySize::bytes(1025), "1025"),
        (MemorySize::mb(1), "1m"),
        (MemorySize::gb(1), "1g"),
    ];
    for (mem_sz, s) in pairs {
        assert_eq!(mem_sz.to_string(), s);
        assert_eq!(mem_sz, MemorySize::from_str(s).unwrap());
    }

    assert_eq!(MemorySize::bytes(10), MemorySize::from_str("10b").unwrap());
}

#[test]
fn memory_size_rejects_what_is_not_a_size() {
    assert!(MemorySize::from_str("").is_err());
    assert!(MemorySize::from_str("k").is_err());
    assert!(MemorySize::from_str("12x").is_err());
    assert!(MemorySize::from_str("1 k").is_err());
    assert!(MemorySize::from_str("-1").is_err());
    assert!(MemorySize::from_str("99999999999999999999999999").is_err());
    assert!(MemorySize::from_str("99999999999999999999g").is_err());
    assert_eq!(MemorySize::from_str("3m").unwrap().to_bytes(), 3 * 1024 * 1024);
    assert_eq!(MemorySize::mb(2048).to_string(), "2g");
    let err = MemorySize::from_str("12x").unwrap_err();
    assert_eq!(err.wanted, "memory size");
    assert_eq!(err.input, "12x");
}

#[test]
fn network_mode_has_a_string_representation() {
    let pairs = vec![
        (NetworkMode::Bridge, "bridge"),
        (NetworkMode::Host, "host"),
        (NetworkMode::NoNetwork, "none"),
        (NetworkMode::Service("foo".to_owned()), "service:foo"),
        (NetworkMode::Container("foo".to_owned()), "container:foo"),
    ];
    for (mode, s) in pairs {
        assert_eq!(mode.to_string(), s);
        assert_eq!(mode, NetworkMode::from_str(s).unwrap());
    }
}

#[test]
fn mode_enum_network_mode_has_a_string_representation() {
    let pairs = vec![
        (NetworkMode::Bridge, "bridge"),
        (NetworkMode::Host, "host"),
        (NetworkMode::NoNetwork, "none"),
        (NetworkMode::Service("foo".to_owned()), "service:foo"),
        (NetworkMode::Container("foo".to_owned()), "container:foo"),
    ];
    for (mode, s) in pairs {
        assert_eq!(mode.to_string(), s);
        assert_eq!(mode, NetworkMode::from_str(s).unwrap());
    }
    assert!(NetworkMode::from_str("invalid").is_err());
    assert!(NetworkMode::from_str("service:").is_err());
    assert!(NetworkMode::from_str("service:a\nb").is_err());
    assert!(NetworkMode::from_str("pod:foo").is_err());
    assert_eq!(
        NetworkMode::from_str("container:a:b").unwrap(),
        NetworkMode::Container("a:b".to_owned())
    );
    let err = NetworkMode::from_str("invalid").unwrap_err();
    assert_eq!(err.wanted, "NetworkMode");
    assert_eq!(err.input, "invalid");
}

#[test]
fn pid_and_ipc_modes_have_string_representations() {
    assert_eq!(PidMode::from_str("host").unwrap(), PidMode::Host);
    assert_eq!(
        PidMode::from_str("container:db").unwrap(),
        PidMode::Container("db".to_owned())
    );
    assert_eq!(PidMode::Container("db".to_owned()).to_string(), "container:db");
    assert!(PidMode::from_str("service:db").is_err());
    assert_eq!(IpcMode::from_str("host").unwrap(), IpcMode::Host);
    assert_eq!(
        IpcMode::from_str("container:db").unwrap(),
        IpcMode::Container("db".to_owned())
    );
    assert_eq!(IpcMode::Host.to_string(), "host");
    assert!(IpcMode::from_str("bridge").is_err());
}

#[test]
fn restart_mode_has_a_string_representation() {
    let pairs = vec![
        (RestartMode::No, "no"),
        (RestartMode::OnFailure(None), "on-failure"),
        (RestartMode::OnFailure(Some(3)), "on-failure:3"),
        (RestartMode::Always, "always"),
        (RestartMode::UnlessStopped, "unless-stopped"),
    ];
    for (mode, s) in pairs {
        assert_eq!(mode.to_string(), s);
        assert_eq!(mode, RestartMode::from_str(s).unwrap());
    }
}

#[test]
fn restart_mode_reports_what_it_could_not_read() {
    assert_eq!(
        RestartMode::from_str("on-failure:+12").unwrap(),
        RestartMode::OnFailure(Some(12))
    );
    assert_eq!(
        RestartMode::from_str("on-failure:4294967295").unwrap(),
        RestartMode::OnFailure(Some(4294967295))
    );
    let err = RestartMode::from_str("sometimes").unwrap_err();
    assert_eq!((err.wanted.as_str(), err.input.as_str()), ("restart-mode", "sometimes"));
    let err = RestartMode::from_str("on-failure:many").unwrap_err();
    assert_eq!((err.wanted.as_str(), err.input.as_str()), ("restart mode", "many"));
    let err = RestartMode::from_str("on-failure:4294967296").unwrap_err();
    assert_eq!((err.wanted.as_str(), err.input.as_str()), ("restart mode", "4294967296"));
    let err = RestartMode::from_str("never:3").unwrap_err();
    assert_eq!((err.wanted.as_str(), err.input.as_str()), ("restart mode", "never:3"));
    let err = RestartMode::from_str("On-failure:3").unwrap_err();
    assert_eq!((err.wanted.as_str(), err.input.as_str()), ("restart-mode", "On-failure:3"));
}

#[test]
fn device_permissions_has_a_string_representation() {
    let pairs = vec![
        (Default::default(), "rwm"),
        (DevicePermissions { read: false, ..Default::default() }, "wm"),
        (DevicePermissions { write: false, ..Default::default() }, "rm"),
        (DevicePermissions { mknod: false, ..Default::default() }, "rw"),
    ];
    for (mode, s) in pairs {
        assert_eq!(mode.to_string(), s);
        assert_eq!(mode, DevicePermissions::from_str(s).unwrap());
    }
}

#[test]
fn permissions_device_permissions_has_a_string_representation() {
    let pairs = vec![
        (Default::default(), "rwm"),
        (DevicePermissions { read: false, ..Default::default() }, "wm"),
        (DevicePermissions { write: false, ..Default::default() }, "rm"),
        (DevicePermissions { mknod: false, ..Default::default() }, "rw"),
    ];
    for (mode, s) in pairs {
        assert_eq!(mode.to_string(), s);
        assert_eq!(mode, DevicePermissions::from_str(s).unwrap());
    }
    let none = DevicePermissions { read: false, write: false, mknod: false };
    assert_eq!(none.to_string(), "");
    assert_eq!(DevicePermissions::from_str("").unwrap(), none);
    assert_eq!(DevicePermissions::from_str("xyz").unwrap(), none);
    assert_eq!(
        DevicePermissions::from_str("mr").unwrap(),
        DevicePermissions { read: false, write: false, mknod: true }
    );
}

#[test]
fn volume_permissions_has_a_string_representation() {
    let pairs = vec![
        (VolumePermissions::ReadWrite, "rw"),
        (VolumePermissions::ReadOnly, "ro"),
    ];
    for (mode, s) in pairs {
        assert_eq!(mode.to_string(), s);
        assert_eq!(mode, VolumePermissions::from_str(s).unwrap());
    }
}

#[test]
fn permissions_volume_permissions_has_a_string_representation() {
    let pairs = vec![
        (VolumePermissions::ReadWrite, "rw"),
        (VolumePermissions::ReadOnly, "ro"),
    ];
    for (mode, s) in pairs {
        assert_eq!(mode.to_string(), s);
        assert_eq!(mode, VolumePermissions::from_str(s).unwrap());
    }
    let err = VolumePermissions::from_str("wo").unwrap_err();
    assert_eq!(err.wanted, "volume permissions");
    assert_eq!(err.input, "wo");
}

#[test]
fn volume_mode_has_a_string_representation() {
    let pairs = vec![
        (VolumeModes::ReadWrite, "rw"),
        (VolumeModes::ReadOnly, "ro"),
        (VolumeModes::Consistent, "consistent"),
        (VolumeModes::Cached, "cached"),
        (VolumeModes::Delegated, "delegated"),
    ];
    for (mode, s) in pairs {
        assert_eq!(mode.to_string(), s);
        assert_eq!(mode, VolumeModes::from_str(s).unwrap());
    }
    let err = VolumeModes::from_str("rx").unwrap_err();
    assert_eq!(err.wanted, "volume mode");
}
