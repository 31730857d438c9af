use compose_yml::context::Context;
use compose_yml::git_url::GitUrl;
use compose_yml::host_address::HostAddress;
use compose_yml::host_mapping::HostMapping;
use compose_yml::image::{Image, ImageVersion, RegistryHost};
use compose_yml::permissions::VolumePermissions;
use compose_yml::port_mapping::{PortMapping, Ports, Protocol};
use compose_yml::service_volume::ServiceVolume;
use compose_yml::volume_modes::VolumeModes;
use compose_yml::volume_mount::{path_str_from_docker, path_str_to_docker, HostVolume, VolumeMount};
use compose_yml::volumes_from::{ServiceOrContainer, VolumesFrom};

#[test]
fn context_may_contain_git_urls() {
    // See http://stackoverflow.com/a/34120821/12089
    let urls = vec![
        "git://github.com/docker/docker",
        "git@github.com:docker/docker.git",
        "git@bitbucket.org:atlassianlabs/atlassian-docker.git",
        "https://github.com/docker/docker.git",
        "http://github.com/docker/docker.git",
        "github.com/docker/docker.git",
    ];

    for url in urls {
        let context: Context = Context::from_str(url).unwrap();
        assert_eq!(context, Context::GitUrl(GitUrl::new(url).unwrap()));
        assert_eq!(context.to_string(), url);
    }
}

#[test]
fn context_may_contain_dir_paths() {
    let paths = vec![".", "./foo", "./foo/bar/"];
    for path in paths {
        let context: Context = Context::from_str(path).unwrap();
        assert_eq!(context, Context::Dir(path.to_owned()));
        assert_eq!(context.to_string(), path);
    }
}

#[test]
fn without_subdirectory_removes_the_optional_subdir() {
    let dir: Context = Context::from_str("./foo").unwrap();
    let plain_repo: Context = Context::from_str("git@github.com:docker/docker.git").unwrap();
    let repo_with_branch: Context =
        Context::from_str("git@github.com:docker/docker.git#somebranch").unwrap();
    let repo_with_subdir: Context =
        Context::from_str("git@github.com:docker/docker.git#:somedir").unwrap();
    let repo_with_branch_and_subdir: Context =
        Context::from_str("git@github.com:docker/docker.git#somebranch:somedir").unwrap();

    assert_eq!(dir, dir.without_repository_subdirectory());
    assert_eq!(plain_repo, plain_repo.without_repository_subdirectory());
    assert_eq!(
        repo_with_branch,
        repo_with_branch.without_repository_subdirectory()
    );

    assert_eq!(plain_repo, repo_with_subdir.without_repository_subdirectory());
    assert_eq!(
        repo_with_branch,
        repo_with_branch_and_subdir.without_repository_subdirectory()
    );
}

#[test]
fn to_url_converts_git_urls_to_real_ones() {
    // Example URLs from http://stackoverflow.com/a/34120821/12089.
    let regular_urls = &[
        "git://github.com/docker/docker",
        "https://github.com/docker/docker.git",
        "http://github.com/docker/docker.git",
    ];
    for &url in regular_urls {
        assert_eq!(GitUrl::new(url).unwrap().to_url().unwrap().to_string(), url);
    }

    // According to http://stackoverflow.com/a/34120821/12089, we also need
    // to special-case `git@` and `github.com/` prefixes.
    let fake_urls = &[
        (
            "git@github.com:docker/docker.git",
            "git://git@github.com/docker/docker.git",
        ),
        (
            "git@bitbucket.org:atlassianlabs/atlassian-docker.git",
            "git://git@bitbucket.org/atlassianlabs/atlassian-docker.git",
        ),
        (
            "github.com/docker/docker.git",
            "https://github.com/docker/docker.git",
        ),
    ];
    for &(fake_url, real_url) in fake_urls {
        assert_eq!(
            GitUrl::new(fake_url).unwrap().to_url().unwrap().to_string(),
            real_url
        );
        assert_eq!(
            GitUrl::new(fake_url).unwrap().real_url(),
            Some(real_url.to_owned())
        );
    }

    let invalid_urls = &["local/path.git"];
    for &url in invalid_urls {
        assert!(GitUrl::new(url).is_err());
    }
}

#[test]
fn it_can_extract_its_repo_branch_and_subdir_parts() {
    let urls = &[
        "git://github.com/docker/docker",
        "https://github.com/docker/docker.git",
        "http://github.com/docker/docker.git",
        "git@github.com:docker/docker.git",
        "git@bitbucket.org:atlassianlabs/atlassian-docker.git",
        "github.com/docker/docker.git",
    ];

    // Refs/folders specified as per:
    // https://docs.docker.com/engine/reference/commandline/build/#git-repositories
    for &url in urls {
        let plain = GitUrl::new(url).unwrap();
        assert_eq!(plain.repository(), url);
        assert_eq!(plain.branch(), None);
        assert_eq!(plain.subdirectory(), None);

        let with_ref = GitUrl::new(&format!("{}{}", url, "#mybranch")).unwrap();
        assert_eq!(with_ref.repository(), url);
        assert_eq!(with_ref.branch(), Some("mybranch"));
        assert_eq!(with_ref.subdirectory(), None);

        let with_subdir = GitUrl::new(&format!("{}{}", url, "#:myfolder")).unwrap();
        assert_eq!(with_subdir.repository(), url);
        assert_eq!(with_subdir.branch(), None);
        assert_eq!(with_subdir.subdirectory(), Some("myfolder"));

        let with_ref_and_subdir =
            GitUrl::new(&format!("{}{}", url, "#mybranch:myfolder")).unwrap();
        assert_eq!(with_ref_and_subdir.repository(), url);
        assert_eq!(with_ref_and_subdir.branch(), Some("mybranch"));
        assert_eq!(with_ref_and_subdir.subdirectory(), Some("myfolder"));

        // This is an invalid URL - just making sure it doesn't extract a directory from it
        let weird_url = GitUrl::new(&format!("{}{}", url, ":myfolder")).unwrap();
        assert_eq!(weird_url.repository(), format!("{}{}", url, ":myfolder"));
        assert_eq!(weird_url.branch(), None);
        assert_eq!(weird_url.subdirectory(), None);
    }
}

#[test]
fn git_url_rejects_what_does_not_divide_into_parts() {
    assert!(GitUrl::new("git://x#branch:").is_err());
    assert!(GitUrl::new("git://x#:a\nb").is_err());
    assert!(GitUrl::new("git://x#").is_ok());
    assert_eq!(
        GitUrl::new("https://h/r#b:d").unwrap().without_subdirectory().as_str(),
        "https://h/r#b"
    );
    assert_eq!(
        Context::new("git://x#branch:"),
        Context::Dir("git://x#branch:".to_owned())
    );
}

#[test]
fn host_mapping_supports_string_serialization() {
    let localhost: HostAddress = HostAddress::from_str("127.0.0.1").unwrap();
    assert_eq!(
        HostMapping::new("foo.example.com", &localhost),
        HostMapping::from_str("foo.example.com:127.0.0.1").unwrap()
    );
    assert_eq!(
        HostMapping::new("foo.example.com", &localhost).to_string(),
        "foo.example.com:127.0.0.1"
    );
}

#[test]
fn host_addresses_are_four_numbers_up_to_255() {
    assert_eq!(HostAddress::from_str("0.0.0.0").unwrap(), HostAddress::new(0, 0, 0, 0));
    assert_eq!(
        HostAddress::from_str("255.255.255.255").unwrap().to_string(),
        "255.255.255.255"
    );
    assert_eq!(HostAddress::new(10, 0, 200, 7).to_string(), "10.0.200.7");
    for bad in ["", "1.2.3", "1.2.3.4.5", "256.1.1.1", "01.2.3.4", "1..2.3", "1.2.3.4 ", "a.b.c.d", "1.2.3.-4"] {
        let err = HostAddress::from_str(bad).unwrap_err();
        assert_eq!(err.wanted, "IP address");
        assert_eq!(err.input, bad);
    }
    let err = HostMapping::from_str("host").unwrap_err();
    assert_eq!(err.wanted, "host mapping");
    let err = HostMapping::from_str("host:1.2.3").unwrap_err();
    assert_eq!((err.wanted.as_str(), err.input.as_str()), ("IP address", "host:1.2.3"));
}

#[test]
fn parses_standard_image_formats() {
    let img1 = Image {
        registry_host: None,
        user_name: None,
        name: "hello".to_owned(),
        version: None,
    };
    let img2 = Image {
        registry_host: None,
        user_name: Some("example".to_owned()),
        name: "hello".to_owned(),
        version: Some(ImageVersion::Tag("4.4-alpine".to_owned())),
    };
    let img3 = Image {
        registry_host: Some(RegistryHost {
            host: "example.com".to_owned(),
            port: Some(123),
        }),
        user_name: None,
        name: "hello".to_owned(),
        version: Some(ImageVersion::Tag("latest".to_owned())),
    };
    let img4 = Image {
        registry_host: Some(RegistryHost {
            host: "example.com".to_owned(),
            port: None,
        }),
        user_name: Some("staff".to_owned()),
        name: "hello".to_owned(),
        version: None,
    };
    let img5 = Image {
        registry_host: None,
        user_name: Some("user".to_owned()),
        name: "foo/bar".to_owned(),
        version: Some(ImageVersion::Tag("latest".to_owned())),
    };
    let img6 = Image {
        registry_host: Some(RegistryHost {
            host: "example.com".to_owned(),
            port: Some(5000),
        }),
        user_name: Some("test".to_owned()),
        name: "busybox".to_owned(),
        version: Some(ImageVersion::Digest(
            "sha256:cbbf2f9a99b47fc460d422812b6a5adff7dfee951d8fa2e4a98caa0382cfbdbf"
                .to_owned(),
        )),
    };
    let pairs = vec![
        (img1, "hello"),
        (img2, "example/hello:4.4-alpine"),
        (img3, "example.com:123/hello:latest"),
        (img4, "example.com/staff/hello"),
        (img5, "user/foo/bar:latest"),
        (img6, "example.com:5000/test/busybox@sha256:cbbf2f9a99b47fc460d422812b6a5adff7dfee951d8fa2e4a98caa0382cfbdbf"),
    ];
    for (img, s) in pairs {
        assert_eq!(img.to_string(), s);
        assert_eq!(img, Image::from_str(s).unwrap());
    }
}

#[test]
fn parses_stand_image_formats() {
    let img1 = Image {
        registry_host: None,
        user_name: None,
        name: "hello".to_owned(),
        version: None,
    };
    let img2 = Image {
        registry_host: None,
        user_name: Some("example".to_owned()),
        name: "hello".to_owned(),
        version: Some(ImageVersion::Tag("4.4-alpine".to_owned())),
    };
    let img3 = Image {
        registry_host: Some(RegistryHost {
            host: "example.com".to_owned(),
            port: Some(123),
        }),
        user_name: None,
        name: "hello".to_owned(),
        version: Some(ImageVersion::Tag("latest".to_owned())),
    };
    let img4 = Image {
        registry_host: Some(RegistryHost {
            host: "example.com".to_owned(),
            port: None,
        }),
        user_name: Some("staff".to_owned()),
        name: "hello".to_owned(),
        version: None,
    };
    let pairs = vec![
        (img1, "hello"),
        (img2, "example/hello:4.4-alpine"),
        (img3, "example.com:123/hello:latest"),
        (img4, "example.com/staff/hello"),
    ];
    for (img, s) in pairs {
        assert_eq!(img.to_string(), s);
        assert_eq!(img, Image::from_str(s).unwrap());
        assert_eq!(img.without_tag().version, None);
    }
}

#[test]
fn image_references_divide_as_docker_divides_them() {
    // Without a slash after it, a host with a port is a name with a tag.
    let img = Image::from_str("a.b:80").unwrap();
    assert_eq!(img.registry_host, None);
    assert_eq!(img.name, "a.b");
    assert_eq!(img.version, Some(ImageVersion::Tag("80".to_owned())));
    // A registry with nothing after it is a name.
    let img = Image::from_str("example.com/").unwrap();
    assert_eq!(img.registry_host, None);
    assert_eq!(img.name, "example.com/");
    // A port that is no port is an error.
    let err = Image::from_str("example.com:99999/hello").unwrap_err();
    assert_eq!((err.wanted.as_str(), err.input.as_str()), ("image", "example.com:99999/hello"));
    assert!(Image::from_str("").is_err());
    assert!(Image::from_str("hello:").is_err());
    assert!(Image::from_str("hello:a:b").is_err());
    assert!(Image::from_str("hello@").is_err());
    assert!(Image::new("hello:tag/x").is_err());
    let img = Image::new("example.com:5000/test/busybox:1").unwrap();
    assert_eq!(img.without_version().to_string(), "example.com:5000/test/busybox");
    let digest = Image::new("busybox@sha256:abc").unwrap();
    assert_eq!(digest.without_tag(), digest);
    assert_eq!(digest.without_version().to_string(), "busybox");
}

#[test]
fn port_mapping_should_have_a_string_representation() {
    let localhost: HostAddress = HostAddress::from_str("127.0.0.1").unwrap();

    let map1 = PortMapping::any_to(80);
    let map2 = PortMapping {
        protocol: Protocol::Udp,
        ..map1
    };
    let map3 = PortMapping::new(Ports::Range(8080, 8089), Ports::Range(3000, 3009));
    let map4 = PortMapping {
        protocol: Protocol::Udp,
        ..map3
    };
    let map5 = PortMapping {
        host_address: Some(localhost),
        ..PortMapping::new(80, 80)
    };
    let map6 = PortMapping {
        protocol: Protocol::Udp,
        ..map5
    };

    let pairs = vec![
        (map1, "80"),
        (map2, "80/udp"),
        (map3, "8080-8089:3000-3009"),
        (map4, "8080-8089:3000-3009/udp"),
        (map5, "127.0.0.1:80:80"),
        (map6, "127.0.0.1:80:80/udp"),
    ];
    for (map, s) in pairs {
        assert_eq!(map.to_string(), s);
        assert_eq!(map, PortMapping::from_str(s).unwrap());
    }
}

#[test]
fn port_mapping_port_mapping_should_have_a_string_representation() {
    let localhost: HostAddress = HostAddress::from_str("127.0.0.1").unwrap();

    let map1 = PortMapping::any_to(80);
    let map2 = PortMapping::new(Ports::Range(8080, 8089), Ports::Range(3000, 3009));
    let map3 = PortMapping {
        host_address: Some(localhost),
        ..PortMapping::new(80, 80)
    };

    let pairs = vec![
        (map1, "80"),
        (map2, "8080-8089:3000-3009"),
        (map3, "127.0.0.1:80:80"),
    ];
    for (map, s) in pairs {
        assert_eq!(map.to_string(), s);
        assert_eq!(map, PortMapping::from_str(s).unwrap());
    }
    assert_eq!(map1.host_address, None);
    assert_eq!(map1.host_ports, None);
    assert_eq!(map1.container_ports, Ports::Port(80));
    assert_eq!(map3.host_ports, Some(Ports::Port(80)));
}

#[test]
fn port_mapping_can_be_parsed_from_a_string() {
    // These are just the strings that don't format the same way they parse
    let localhost: HostAddress = HostAddress::from_str("127.0.0.1").unwrap();

    let map1 = PortMapping::any_to(80);
    let map2 = PortMapping::new(Ports::Range(8080, 8089), Ports::Range(3000, 3009));
    let map3 = PortMapping {
        host_address: Some(localhost),
        ..PortMapping::new(80, 80)
    };

    {
        let pairs = vec![
            (map1, "80/tcp"),
            (map2, "8080-8089:3000-3009/tcp"),
            (map3, "127.0.0.1:80:80/tcp"),
        ];
        for (map, s) in pairs {
            assert_eq!(map, PortMapping::from_str(s).unwrap());
        }
    }
}

#[test]
fn port_mapping_reports_what_it_could_not_read() {
    let cases = vec![
        ("80/tcp/udp", "port mapping", "80/tcp/udp"),
        ("80/icmp", "protocol", "icmp"),
        ("80:", "ports", ""),
        ("x:80", "ports", "x"),
        ("80-:80", "ports", "80-"),
        ("70000", "port", "70000"),
        ("80:80-70000", "port", "80-70000"),
        ("localhost:80:80", "IP address", "localhost:80:80"),
        ("1::2::3:80:80/udp", "IP address", "1::2::3:80:80/udp"),
        ("1.2.3.4:x:80", "ports", "x"),
        ("", "ports", ""),
    ];
    for (input, wanted, shown) in cases {
        let err = PortMapping::from_str(input).unwrap_err();
        assert_eq!((err.wanted.as_str(), err.input.as_str()), (wanted, shown));
    }
    assert_eq!(Ports::from_str("1-2").unwrap(), Ports::Range(1, 2));
    assert_eq!(Ports::Range(1, 2).to_string(), "1-2");
    assert_eq!(Ports::from_str("0065535").unwrap(), Ports::Port(65535));
}

#[test]
fn portable_volume_mounts_should_have_string_representations() {
    let vol1 = VolumeMount::anonymous("/var/lib");
    let vol2 = VolumeMount::named("named", "/var/lib");

    let pairs = vec![(vol1, "/var/lib"), (vol2, "named:/var/lib")];
    for (mode, s) in pairs {
        assert_eq!(mode.to_string(), s);
        assert_eq!(mode, VolumeMount::from_str(s).unwrap());
    }
}

#[test]
fn unix_windows_volume_mounts_should_have_string_representations() {
    let vol3 = VolumeMount {
        mode: VolumeModes::ReadOnly,
        ..VolumeMount::host("/etc/foo", "/etc/myfoo")
    };

    let pairs = vec![(vol3, "/etc/foo:/etc/myfoo:ro")];
    for (mode, s) in pairs {
        assert_eq!(mode.to_string(), s);
        assert_eq!(mode, VolumeMount::from_str(s).unwrap());
    }
}

#[test]
fn volume_mounts_should_have_string_representations() {
    let vol1 = VolumeMount::anonymous("/var/lib");
    let vol2 = VolumeMount::named("named", "/var/lib");
    let vol3 = VolumeMount {
        mode: VolumeModes::ReadOnly,
        ..VolumeMount::host("/etc/foo", "/etc/myfoo")
    };

    let pairs = vec![
        (vol1, "/var/lib"),
        (vol2, "named:/var/lib"),
        (vol3, "/etc/foo:/etc/myfoo:ro"),
    ];
    for (mode, s) in pairs {
        assert_eq!(mode.to_string(), s);
        assert_eq!(mode, VolumeMount::from_str(s).unwrap());
    }
}

#[test]
fn host_volumes_are_paths_home_paths_or_names() {
    assert_eq!(HostVolume::from_str("/a").unwrap(), HostVolume::Path("/a".to_owned()));
    assert_eq!(HostVolume::from_str("./a").unwrap(), HostVolume::Path("./a".to_owned()));
    assert_eq!(HostVolume::from_str("../a").unwrap(), HostVolume::Path("../a".to_owned()));
    assert_eq!(
        HostVolume::from_str("~/a").unwrap(),
        HostVolume::UserRelativePath("a".to_owned())
    );
    assert_eq!(HostVolume::from_str("data").unwrap(), HostVolume::Name("data".to_owned()));
    // What is passed over, and what ends with its line.
    assert_eq!(HostVolume::from_str(".foo").unwrap(), HostVolume::Name("foo".to_owned()));
    assert_eq!(HostVolume::from_str("/a\nb").unwrap(), HostVolume::Path("/a".to_owned()));
    assert!(HostVolume::from_str("").is_err());
    assert!(HostVolume::from_str("~/").is_err());
    assert!(HostVolume::from_str("...").is_err());
    assert_eq!(HostVolume::Path("a/b".to_owned()).to_string(), "./a/b");
    assert_eq!(HostVolume::UserRelativePath("a".to_owned()).to_string(), "~/a");
    let err = VolumeMount::from_str("a:b:c:d").unwrap_err();
    assert_eq!((err.wanted.as_str(), err.input.as_str()), ("volume", "a:b:c:d"));
    let err = VolumeMount::from_str("a:b:rx").unwrap_err();
    assert_eq!((err.wanted.as_str(), err.input.as_str()), ("volume mode", "rx"));
    let err = VolumeMount::from_str("~/:b").unwrap_err();
    assert_eq!((err.wanted.as_str(), err.input.as_str()), ("host volume", "~/"));
    assert_eq!(
        VolumeMount::from_str("./src:/app:cached").unwrap(),
        VolumeMount { mode: VolumeModes::Cached, ..VolumeMount::host("./src", "/app") }
    );
}

#[test]
fn volumes_from_should_have_a_string_representation() {
    let vf1 = VolumesFrom::service("foo");
    let vf2 = VolumesFrom {
        permissions: VolumePermissions::ReadOnly,
        ..VolumesFrom::container("foo")
    };

    let pairs = vec![(vf1, "foo"), (vf2, "container:foo:ro")];
    for (vf, s) in pairs {
        assert_eq!(vf.to_string(), s);
        assert_eq!(vf, VolumesFrom::from_str(s).unwrap());
    }
}

#[test]
fn volumes_from_reports_what_it_could_not_read() {
    assert_eq!(
        VolumesFrom::from_str("container:ro").unwrap().source,
        ServiceOrContainer::Container("ro".to_owned())
    );
    assert_eq!(
        VolumesFrom::from_str("foo:rw").unwrap(),
        VolumesFrom::service("foo")
    );
    for bad in ["", ":ro", "foo:", "container:", "a:b:c", "container:a:ro:x"] {
        let err = VolumesFrom::from_str(bad).unwrap_err();
        assert_eq!((err.wanted.as_str(), err.input.as_str()), ("volumes_from", bad));
    }
    let err = VolumesFrom::from_str("foo:wo").unwrap_err();
    assert_eq!((err.wanted.as_str(), err.input.as_str()), ("volume permissions", "wo"));
}

#[test]
fn service_volumes_should_have_string_representations() {
    let vol1 = ServiceVolume {
        host: None,
        container: "/var/lib".to_owned(),
        permissions: Default::default(),
    };
    let vol2 = ServiceVolume {
        host: Some(HostVolume::Name("named".to_owned())),
        container: "/var/lib".to_owned(),
        permissions: Default::default(),
    };
    let vol3 = ServiceVolume {
        host: Some(HostVolume::Path("/etc/foo".to_owned())),
        container: "/etc/myfoo".to_owned(),
        permissions: VolumePermissions::ReadOnly,
    };

    let pairs = vec![
        (vol1, "/var/lib"),
        (vol2, "named:/var/lib"),
        (vol3, "/etc/foo:/etc/myfoo:ro"),
    ];
    for (mode, s) in pairs {
        assert_eq!(mode.to_string(), s);
        assert_eq!(mode, ServiceVolume::from_str(s).unwrap());
    }
    let err = ServiceVolume::from_str("a:b:cached").unwrap_err();
    assert_eq!((err.wanted.as_str(), err.input.as_str()), ("volume permissions", "cached"));
}

#[test]
fn host_addresses_may_be_groups_of_hexadecimal_digits() {
    let loopback = HostAddress::V6 { g0: 0, g1: 0, g2: 0, g3: 0, g4: 0, g5: 0, g6: 0, g7: 1 };
    assert_eq!(HostAddress::from_str("::1").unwrap(), loopback);
    assert_eq!(HostAddress::from_str("0:0:0:0:0:0:0:1").unwrap(), loopback);
    assert_eq!(loopback.to_string(), "0:0:0:0:0:0:0:1");
    let all = HostAddress::from_str("2001:DB8:0:00ab::ff00:42:8329").unwrap();
    assert_eq!(
        all,
        HostAddress::V6 {
            g0: 0x2001,
            g1: 0xdb8,
            g2: 0,
            g3: 0xab,
            g4: 0,
            g5: 0xff00,
            g6: 0x42,
            g7: 0x8329
        }
    );
    assert_eq!(all.to_string(), "2001:db8:0:ab:0:ff00:42:8329");
    assert_eq!(HostAddress::from_str(&all.to_string()).unwrap(), all);
    assert_eq!(
        HostAddress::from_str("::ffff:1.2.3.4").unwrap(),
        HostAddress::V6 { g0: 0, g1: 0, g2: 0, g3: 0, g4: 0, g5: 0xffff, g6: 0x0102, g7: 0x0304 }
    );
    assert_eq!(
        HostAddress::from_str("1:2:3:4:5:6:10.0.0.1").unwrap(),
        HostAddress::V6 { g0: 1, g1: 2, g2: 3, g3: 4, g4: 5, g5: 6, g6: 0x0a00, g7: 1 }
    );
    assert_eq!(
        HostAddress::from_str("::").unwrap(),
        HostAddress::V6 { g0: 0, g1: 0, g2: 0, g3: 0, g4: 0, g5: 0, g6: 0, g7: 0 }
    );
    assert_eq!(
        HostAddress::from_str("1:2:3:4:5:6:7::").unwrap(),
        HostAddress::V6 { g0: 1, g1: 2, g2: 3, g3: 4, g4: 5, g5: 6, g6: 7, g7: 0 }
    );
    for bad in [
        ":", ":::", "1::2::3", "1:2:3:4:5:6:7", "1:2:3:4:5:6:7:8:9", "1:2:3:4:5:6:7:8::",
        "12345::", "g::", "1.2.3.4::", "::1.2.3.4:5", "::1.2.3", "1:2:3:4:5:6:7:1.2.3.4",
        "1:2:3:4:5:6::1.2.3.4", ":1:2:3:4:5:6:7", "1:2:3:4:5:6:7:", "::1%eth0",
    ] {
        assert!(HostAddress::from_str(bad).is_err(), "{:?}", bad);
    }
    let cases: Vec<(&str, [u16; 8])> = vec![
        ("1::", [1, 0, 0, 0, 0, 0, 0, 0]),
        ("fe80::1:2", [0xfe80, 0, 0, 0, 0, 0, 1, 2]),
        ("2001:db8::", [0x2001, 0xdb8, 0, 0, 0, 0, 0, 0]),
        ("1:2:3:4:5:6:7:8", [1, 2, 3, 4, 5, 6, 7, 8]),
        ("::ffff:10.1.2.3", [0, 0, 0, 0, 0, 0xffff, 0x0a01, 0x0203]),
        ("1:2:3:4:5::1.2.3.4", [1, 2, 3, 4, 5, 0, 0x0102, 0x0304]),
        ("0001:0002::", [1, 2, 0, 0, 0, 0, 0, 0]),
        ("::A:b", [0, 0, 0, 0, 0, 0, 10, 11]),
    ];
    for (text, s) in cases {
        let ours = HostAddress::from_str(text).unwrap();
        assert_eq!(
            ours,
            HostAddress::V6 {
                g0: s[0], g1: s[1], g2: s[2], g3: s[3], g4: s[4], g5: s[5], g6: s[6], g7: s[7]
            },
            "{:?}",
            text
        );
        assert_eq!(HostAddress::from_str(&ours.to_string()).unwrap(), ours);
    }
    let mapping = HostMapping::from_str("db:fe80::1").unwrap();
    assert_eq!(mapping.hostname, "db");
    assert_eq!(mapping.to_string(), "db:fe80:0:0:0:0:0:0:1");
    assert_eq!(HostMapping::from_str(&mapping.to_string()).unwrap(), mapping);
    let ports = PortMapping::from_str("::1:8080:80/udp").unwrap();
    assert_eq!(ports.host_address, Some(loopback));
    assert_eq!(ports.to_string(), "0:0:0:0:0:0:0:1:8080:80/udp");
    assert_eq!(PortMapping::from_str(&ports.to_string()).unwrap(), ports);
}

#[test]
fn host_paths_are_kept_as_they_are_written() {
    assert_eq!(path_str_to_docker("./a/b"), "./a/b");
    assert_eq!(path_str_from_docker("/c/x").unwrap(), "/c/x");
}
