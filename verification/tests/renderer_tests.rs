use sha2::Digest;
use carbide_ipxe_renderer::{
    ArtifactCacheStrategy, DefaultIpxeOsRenderer, IpxeOs, IpxeOsArtifact, IpxeOsError,
    IpxeOsParameter, IpxeOsRenderer,
};

fn create_test_ipxeos() -> IpxeOs {
    IpxeOs {
        name: "Test OS".to_string(),
        description: Some("Test operating system".to_string()),
        hash: "placeholder".to_string(),
        tenant_id: None,
        ipxe_template_name: "qcow-image".to_string(),
        parameters: vec![IpxeOsParameter {
            name: "image_url".to_string(),
            value: "http://example.com/image.qcow2".to_string(),
        }],
        artifacts: vec![],
    }
}

fn standard_reserved() -> Vec<IpxeOsParameter> {
    vec![
        IpxeOsParameter {
            name: "base_url".to_string(),
            value: "http://pxe.local".to_string(),
        },
        IpxeOsParameter {
            name: "console".to_string(),
            value: "ttyS0,115200".to_string(),
        },
    ]
}

#[test]
fn test_hash_computation() {
    let renderer = DefaultIpxeOsRenderer::new();
    let mut ipxeos = create_test_ipxeos();

    // Compute hash
    let hash = renderer.hash(&ipxeos);
    ipxeos.hash = hash.clone();

    // Validation should pass
    assert!(renderer.validate(&ipxeos).is_ok());

    // Modify a parameter
    ipxeos.parameters[0].value = "http://example.com/different.qcow2".to_string();

    // Validation should fail due to hash mismatch
    assert!(matches!(
        renderer.validate(&ipxeos),
        Err(IpxeOsError::HashMismatch { .. })
    ));
}

#[test]
fn test_reserved_parameter_validation() {
    let renderer = DefaultIpxeOsRenderer::new();
    let mut ipxeos = create_test_ipxeos();

    // Add a reserved parameter
    ipxeos.parameters.push(IpxeOsParameter {
        name: "base_url".to_string(),
        value: "http://bad.com".to_string(),
    });

    // Update hash
    ipxeos.hash = renderer.hash(&ipxeos);

    // Validation should fail
    assert!(matches!(
        renderer.validate(&ipxeos),
        Err(IpxeOsError::ReservedParameterFound(_))
    ));
}

#[test]
fn test_required_parameter_validation() {
    let renderer = DefaultIpxeOsRenderer::new();
    let mut ipxeos = create_test_ipxeos();

    // Remove required parameter
    ipxeos.parameters.clear();

    // Update hash
    ipxeos.hash = renderer.hash(&ipxeos);

    // Validation should fail
    assert!(matches!(
        renderer.validate(&ipxeos),
        Err(IpxeOsError::RequiredParameterMissing(_))
    ));
}

#[test]
fn test_render_qcow_template() {
    let renderer = DefaultIpxeOsRenderer::new();
    let mut ipxeos = create_test_ipxeos();

    // Update hash
    ipxeos.hash = renderer.hash(&ipxeos);

    let reserved_params = vec![
        IpxeOsParameter {
            name: "base_url".to_string(),
            value: "http://pxe.local".to_string(),
        },
        IpxeOsParameter {
            name: "console".to_string(),
            value: "ttyS0,115200".to_string(),
        },
    ];

    let result = renderer.render(&ipxeos, &reserved_params);
    assert!(result.is_ok());

    let script = result.unwrap();
    assert!(script.contains("http://pxe.local"));
    assert!(script.contains("ttyS0,115200"));
    assert!(script.contains("http://example.com/image.qcow2"));
}

#[test]
fn test_render_with_extra_params() {
    let renderer = DefaultIpxeOsRenderer::new();
    let mut ipxeos = create_test_ipxeos();

    // Add extra parameters
    ipxeos.parameters.push(IpxeOsParameter {
        name: "image_sha".to_string(),
        value: "sha256:abc123".to_string(),
    });
    ipxeos.parameters.push(IpxeOsParameter {
        name: "rootfs_uuid".to_string(),
        value: "12345678".to_string(),
    });

    // Update hash
    ipxeos.hash = renderer.hash(&ipxeos);

    let reserved_params = vec![
        IpxeOsParameter {
            name: "base_url".to_string(),
            value: "http://pxe.local".to_string(),
        },
        IpxeOsParameter {
            name: "console".to_string(),
            value: "ttyS0,115200".to_string(),
        },
    ];

    let result = renderer.render(&ipxeos, &reserved_params);
    assert!(result.is_ok());

    let script = result.unwrap();
    assert!(script.contains("image_sha=sha256:abc123"));
    assert!(script.contains("rootfs_uuid=12345678"));
}

#[test]
fn test_render_ubuntu_autoinstall() {
    let renderer = DefaultIpxeOsRenderer::new();
    let mut ipxeos = IpxeOs {
        name: "Ubuntu 22.04".to_string(),
        description: Some("Ubuntu autoinstall".to_string()),
        hash: "placeholder".to_string(),
        tenant_id: None,
        ipxe_template_name: "ubuntu-autoinstall".to_string(),
        parameters: vec![
            IpxeOsParameter {
                name: "kernel".to_string(),
                value: "http://archive.ubuntu.com/ubuntu/dists/jammy/main/installer-amd64/current/legacy-images/netboot/ubuntu-installer/amd64/linux".to_string(),
            },
            IpxeOsParameter {
                name: "initrd".to_string(),
                value: "http://archive.ubuntu.com/ubuntu/dists/jammy/main/installer-amd64/current/legacy-images/netboot/ubuntu-installer/amd64/initrd.gz".to_string(),
            },
            IpxeOsParameter {
                name: "install_iso".to_string(),
                value: "http://releases.ubuntu.com/22.04/ubuntu-22.04-live-server-amd64.iso".to_string(),
            },
        ],
        artifacts: vec![],
    };

    // Update hash
    ipxeos.hash = renderer.hash(&ipxeos);

    let reserved_params = vec![
        IpxeOsParameter {
            name: "base_url".to_string(),
            value: "http://pxe.local".to_string(),
        },
        IpxeOsParameter {
            name: "console".to_string(),
            value: "ttyS0,115200".to_string(),
        },
    ];

    let result = renderer.render(&ipxeos, &reserved_params);
    assert!(result.is_ok());

    let script = result.unwrap();
    assert!(script.contains("kernel http://archive.ubuntu.com"));
    assert!(script.contains("initrd http://archive.ubuntu.com"));
    assert!(script.contains("url=http://releases.ubuntu.com"));
}

#[test]
fn test_render_with_artifact_substitution() {
    let renderer = DefaultIpxeOsRenderer::new();
    let mut ipxeos = IpxeOs {
        name: "Ubuntu with artifacts".to_string(),
        description: Some("Ubuntu with cached artifacts".to_string()),
        hash: "placeholder".to_string(),
        tenant_id: None,
        ipxe_template_name: "ubuntu-autoinstall".to_string(),
        parameters: vec![
            IpxeOsParameter {
                name: "install_iso".to_string(),
                value: "http://releases.ubuntu.com/22.04/ubuntu-22.04-live-server-amd64.iso".to_string(),
            },
        ],
        artifacts: vec![
            IpxeOsArtifact {
                name: "kernel".to_string(),
                url: "http://archive.ubuntu.com/ubuntu/dists/jammy/main/installer-amd64/current/legacy-images/netboot/ubuntu-installer/amd64/linux".to_string(),
                sha: Some("sha256:abc123".to_string()),
                auth_type: None,
                auth_token: None,
                cache_strategy: ArtifactCacheStrategy::CacheAsNeeded,
                local_url: Some("http://pxe.local/artifacts/kernel-abc123".to_string()),
            },
            IpxeOsArtifact {
                name: "initrd".to_string(),
                url: "http://archive.ubuntu.com/ubuntu/dists/jammy/main/installer-amd64/current/legacy-images/netboot/ubuntu-installer/amd64/initrd.gz".to_string(),
                sha: Some("sha256:def456".to_string()),
                auth_type: None,
                auth_token: None,
                cache_strategy: ArtifactCacheStrategy::CacheAsNeeded,
                local_url: Some("http://pxe.local/artifacts/initrd-def456".to_string()),
            },
        ],
    };

    // Update hash
    ipxeos.hash = renderer.hash(&ipxeos);

    let reserved_params = vec![
        IpxeOsParameter {
            name: "base_url".to_string(),
            value: "http://pxe.local".to_string(),
        },
        IpxeOsParameter {
            name: "console".to_string(),
            value: "ttyS0,115200".to_string(),
        },
    ];

    let result = renderer.render_with_artifact_substitution(&ipxeos, &reserved_params);
    assert!(result.is_ok());

    let script = result.unwrap();
    // Should use local cached URLs instead of remote URLs
    assert!(script.contains("kernel http://pxe.local/artifacts/kernel-abc123"));
    assert!(script.contains("initrd http://pxe.local/artifacts/initrd-def456"));
}

#[test]
fn test_fabricate_local_urls() {
    let renderer = DefaultIpxeOsRenderer::new();
    let ipxeos = IpxeOs {
        name: "Test with artifacts".to_string(),
        description: Some("Test".to_string()),
        hash: "test-hash".to_string(),
        tenant_id: None,
        ipxe_template_name: "ubuntu-autoinstall".to_string(),
        parameters: vec![],
        artifacts: vec![
            IpxeOsArtifact {
                name: "kernel".to_string(),
                url: "http://example.com/kernel".to_string(),
                sha: Some("sha256:abc123".to_string()),
                auth_type: None,
                auth_token: None,
                cache_strategy: ArtifactCacheStrategy::CacheAsNeeded,
                local_url: None,
            },
            IpxeOsArtifact {
                name: "initrd".to_string(),
                url: "http://example.com/initrd".to_string(),
                sha: None,
                auth_type: None,
                auth_token: None,
                cache_strategy: ArtifactCacheStrategy::RemoteOnly,
                local_url: None,
            },
        ],
    };

    let result = renderer.fabricate_local_urls(&ipxeos);

    // First artifact should have local_url generated
    assert!(result.artifacts[0].local_url.is_some());
    assert_eq!(
        result.artifacts[0].local_url.as_ref().unwrap(),
        "${base_url}/artifacts/kernel-sha256:abc123"
    );

    // Second artifact is RemoteOnly, should not have local_url
    assert!(result.artifacts[1].local_url.is_none());
}

#[test]
fn test_list_templates() {
    let renderer = DefaultIpxeOsRenderer::new();
    let templates = renderer.list_templates();

    assert!(templates.contains(&"qcow-image".to_string()));
    assert!(templates.contains(&"ubuntu-autoinstall".to_string()));
    assert_eq!(templates.len(), 2);
}

#[test]
fn test_get_template() {
    let renderer = DefaultIpxeOsRenderer::new();

    let template = renderer.get_template("qcow-image");
    assert!(template.is_some());
    assert_eq!(template.unwrap().name, "qcow-image");

    let missing = renderer.get_template("nonexistent");
    assert!(missing.is_none());
}

#[test]
fn render_qcow_exact_script() {
    let renderer = DefaultIpxeOsRenderer::new();
    let mut ipxeos = create_test_ipxeos();
    ipxeos.parameters.push(IpxeOsParameter {
        name: "image_sha".to_string(),
        value: "sha256:abc123".to_string(),
    });
    ipxeos.parameters.push(IpxeOsParameter {
        name: "empty_one".to_string(),
        value: "".to_string(),
    });
    ipxeos.hash = renderer.hash(&ipxeos);
    let script = renderer.render(&ipxeos, &standard_reserved()).unwrap();
    let expected = "#!ipxe\n\
# Generic multi-platform template iPXE script for qcow images\n\
\n\
# 1. Detect architecture using buildarch\n\
# Standard values are 'x86_64' for Intel/AMD and 'arm64' for AArch64\n\
iseq ${buildarch} x86_64 && set arch x86_64 ||\n\
iseq ${buildarch} arm64 && set arch aarch64 || set arch unknown\n\
\n\
# 2. Safety check\n\
iseq ${arch} unknown && echo \"Unsupported architecture!\" && exit 1\n\
\n\
# 3. Set base URL for local artifacts and console specific to hardware:\n\
set base_url http://pxe.local\n\
set console ttyS0,115200\n\
\n\
# 4. Boot qcow-imager with parameters:\n\
chain ${base_url}/internal/${buildarch}/qcow-imager.efi loglevel=7 console=tty0 pci=realloc=off console=ttyS0,115200 image_url=http://example.com/image.qcow2 image_sha=sha256:abc123\n\
boot";
    assert_eq!(script, expected);
}

#[test]
fn render_without_extra_params_leaves_no_trailing_space() {
    let renderer = DefaultIpxeOsRenderer::new();
    let mut ipxeos = create_test_ipxeos();
    ipxeos.hash = renderer.hash(&ipxeos);
    let script = renderer.render(&ipxeos, &standard_reserved()).unwrap();
    assert!(script.contains("image_url=http://example.com/image.qcow2\nboot"));
    assert!(!script.contains("  "));
    assert!(!script.ends_with('\n'));
}

#[test]
fn builtin_qcow_template_text_is_unchanged() {
    let renderer = DefaultIpxeOsRenderer::new();
    let t = renderer.get_template("qcow-image").unwrap();
    let original = r#"#!ipxe
# Generic multi-platform template iPXE script for qcow images

# 1. Detect architecture using buildarch
# Standard values are 'x86_64' for Intel/AMD and 'arm64' for AArch64
iseq ${buildarch} x86_64 && set arch x86_64 ||
iseq ${buildarch} arm64  && set arch aarch64 || set arch unknown

# 2. Safety check
iseq ${arch} unknown && echo "Unsupported architecture!" && exit 1

# 3. Set base URL for local artifacts and console specific to hardware:
set base_url {{base_url}}
set console {{console}}

# 4. Boot qcow-imager with parameters:
chain ${base_url}/internal/${buildarch}/qcow-imager.efi loglevel=7 console=tty0 pci=realloc=off console={{console}} image_url={{image_url}} {{extra}}
boot
"#;
    assert_eq!(t.template, original);
    assert_eq!(t.required_params, vec!["image_url".to_string()]);
    assert_eq!(t.reserved_params, vec!["base_url".to_string(), "console".to_string()]);
    assert_eq!(t.description, "Template for booting qcow images using qcow-imager.efi");
}

#[test]
fn builtin_ubuntu_template_text_is_unchanged() {
    let renderer = DefaultIpxeOsRenderer::new();
    let t = renderer.get_template("ubuntu-autoinstall").unwrap();
    let original = r#"#!ipxe
# Ubuntu autoinstall template

set base_url {{base_url}}
set console {{console}}

kernel {{kernel}} ip=dhcp url={{install_iso}} autoinstall ds=nocloud-net;s=${base_url}/user-data/ console={{console}}
initrd {{initrd}}
boot
"#;
    assert_eq!(t.template, original);
    assert_eq!(
        t.required_params,
        vec!["kernel".to_string(), "initrd".to_string(), "install_iso".to_string()]
    );
}

#[test]
fn hash_is_lowercase_sha256_hex_of_framed_fields() {
    // "qcow-image" + "image_url" + "http://example.com/image.qcow2"
    let renderer = DefaultIpxeOsRenderer::new();
    let ipxeos = create_test_ipxeos();
    let h = renderer.hash(&ipxeos);
    assert_eq!(h.len(), 64);
    assert!(h.chars().all(|c| c.is_ascii_digit() || ('a'..='f').contains(&c)));
    let expected = format!(
        "{:x}",
        sha2::Sha256::digest(b"qcow-imageimage_urlhttp://example.com/image.qcow2")
    );
    assert_eq!(h, expected);
}

#[test]
fn hash_ignores_parameter_order_and_local_fields() {
    let renderer = DefaultIpxeOsRenderer::new();
    let mut a = create_test_ipxeos();
    a.parameters.push(IpxeOsParameter { name: "b".to_string(), value: "2".to_string() });
    a.parameters.push(IpxeOsParameter { name: "a".to_string(), value: "1".to_string() });
    let mut b = create_test_ipxeos();
    b.parameters.insert(0, IpxeOsParameter { name: "a".to_string(), value: "1".to_string() });
    b.parameters.insert(1, IpxeOsParameter { name: "b".to_string(), value: "2".to_string() });
    b.name = "another name".to_string();
    b.hash = "whatever".to_string();
    assert_eq!(renderer.hash(&a), renderer.hash(&b));
    let art = IpxeOsArtifact {
        name: "kernel".to_string(),
        url: "http://x/k".to_string(),
        sha: None,
        auth_type: None,
        auth_token: None,
        cache_strategy: ArtifactCacheStrategy::CacheAsNeeded,
        local_url: None,
    };
    let mut art2 = art.clone();
    art2.cache_strategy = ArtifactCacheStrategy::RemoteOnly;
    art2.local_url = Some("http://local/k".to_string());
    a.artifacts.push(art);
    b.artifacts.push(art2);
    assert_eq!(renderer.hash(&a), renderer.hash(&b));
}

#[test]
fn hash_mismatch_reports_expected_and_actual() {
    let renderer = DefaultIpxeOsRenderer::new();
    let ipxeos = create_test_ipxeos();
    let actual_hash = renderer.hash(&ipxeos);
    match renderer.validate(&ipxeos) {
        Err(IpxeOsError::HashMismatch { expected, actual }) => {
            assert_eq!(expected, "placeholder");
            assert_eq!(actual, actual_hash);
        }
        other => panic!("unexpected {:?}", other),
    }
}

#[test]
fn unknown_template_is_reported() {
    let renderer = DefaultIpxeOsRenderer::new();
    let mut ipxeos = create_test_ipxeos();
    ipxeos.ipxe_template_name = "nope".to_string();
    match renderer.validate(&ipxeos) {
        Err(IpxeOsError::TemplateNotFound(n)) => assert_eq!(n, "nope"),
        other => panic!("unexpected {:?}", other),
    }
    match renderer.render(&ipxeos, &standard_reserved()) {
        Err(IpxeOsError::TemplateNotFound(n)) => assert_eq!(n, "nope"),
        other => panic!("unexpected {:?}", other),
    }
}

#[test]
fn reserved_artifact_name_is_rejected() {
    let renderer = DefaultIpxeOsRenderer::new();
    let mut ipxeos = create_test_ipxeos();
    ipxeos.artifacts.push(IpxeOsArtifact {
        name: "console".to_string(),
        url: "http://x/c".to_string(),
        sha: None,
        auth_type: None,
        auth_token: None,
        cache_strategy: ArtifactCacheStrategy::CacheAsNeeded,
        local_url: None,
    });
    ipxeos.hash = renderer.hash(&ipxeos);
    match renderer.validate(&ipxeos) {
        Err(IpxeOsError::ReservedParameterFound(n)) => assert_eq!(n, "console"),
        other => panic!("unexpected {:?}", other),
    }
}

#[test]
fn required_parameter_with_empty_value_is_missing() {
    let renderer = DefaultIpxeOsRenderer::new();
    let mut ipxeos = create_test_ipxeos();
    ipxeos.parameters[0].value = String::new();
    ipxeos.hash = renderer.hash(&ipxeos);
    match renderer.validate(&ipxeos) {
        Err(IpxeOsError::RequiredParameterMissing(n)) => assert_eq!(n, "image_url"),
        other => panic!("unexpected {:?}", other),
    }
}

#[test]
fn extra_parameters_need_extra_placeholder() {
    let renderer = DefaultIpxeOsRenderer::new();
    let mut ipxeos = IpxeOs {
        name: "u".to_string(),
        description: None,
        hash: String::new(),
        tenant_id: None,
        ipxe_template_name: "ubuntu-autoinstall".to_string(),
        parameters: vec![
            IpxeOsParameter { name: "kernel".to_string(), value: "k".to_string() },
            IpxeOsParameter { name: "initrd".to_string(), value: "i".to_string() },
            IpxeOsParameter { name: "install_iso".to_string(), value: "iso".to_string() },
            IpxeOsParameter { name: "other".to_string(), value: "x".to_string() },
        ],
        artifacts: vec![],
    };
    ipxeos.hash = renderer.hash(&ipxeos);
    assert!(matches!(
        renderer.validate(&ipxeos),
        Err(IpxeOsError::ExtraParametersNotSupported)
    ));
}

#[test]
fn reserved_values_override_parameters_in_render() {
    let renderer = DefaultIpxeOsRenderer::new();
    let mut ipxeos = create_test_ipxeos();
    ipxeos.hash = renderer.hash(&ipxeos);
    let mut reserved = standard_reserved();
    reserved.push(IpxeOsParameter {
        name: "image_url".to_string(),
        value: "http://override/img".to_string(),
    });
    let script = renderer.render(&ipxeos, &reserved).unwrap();
    assert!(script.contains("image_url=http://override/img"));
    assert!(!script.contains("example.com"));
}

#[test]
fn artifact_without_local_url_uses_remote_url() {
    let renderer = DefaultIpxeOsRenderer::new();
    let mut ipxeos = IpxeOs {
        name: "u".to_string(),
        description: None,
        hash: String::new(),
        tenant_id: None,
        ipxe_template_name: "ubuntu-autoinstall".to_string(),
        parameters: vec![IpxeOsParameter {
            name: "install_iso".to_string(),
            value: "iso".to_string(),
        }],
        artifacts: vec![
            IpxeOsArtifact {
                name: "kernel".to_string(),
                url: "http://remote/kernel".to_string(),
                sha: None,
                auth_type: None,
                auth_token: None,
                cache_strategy: ArtifactCacheStrategy::CacheAsNeeded,
                local_url: None,
            },
            IpxeOsArtifact {
                name: "initrd".to_string(),
                url: "http://remote/initrd".to_string(),
                sha: None,
                auth_type: None,
                auth_token: None,
                cache_strategy: ArtifactCacheStrategy::CacheAsNeeded,
                local_url: Some("http://local/initrd".to_string()),
            },
        ],
    };
    ipxeos.hash = renderer.hash(&ipxeos);
    let script = renderer
        .render_with_artifact_substitution(&ipxeos, &standard_reserved())
        .unwrap();
    assert!(script.contains("kernel http://remote/kernel ip=dhcp url=iso"));
    assert!(script.contains("initrd http://local/initrd\nboot"));
}

#[test]
fn fabricate_skips_urls_with_variables_and_existing_local_urls() {
    let renderer = DefaultIpxeOsRenderer::new();
    let ipxeos = IpxeOs {
        name: "t".to_string(),
        description: None,
        hash: "h".to_string(),
        tenant_id: Some("tenant".to_string()),
        ipxe_template_name: "ubuntu-autoinstall".to_string(),
        parameters: vec![],
        artifacts: vec![
            IpxeOsArtifact {
                name: "kernel".to_string(),
                url: "${base_url}/kernel".to_string(),
                sha: None,
                auth_type: None,
                auth_token: None,
                cache_strategy: ArtifactCacheStrategy::CacheAsNeeded,
                local_url: None,
            },
            IpxeOsArtifact {
                name: "initrd".to_string(),
                url: "http://x/initrd".to_string(),
                sha: None,
                auth_type: None,
                auth_token: None,
                cache_strategy: ArtifactCacheStrategy::LocalOnly,
                local_url: Some("keep".to_string()),
            },
            IpxeOsArtifact {
                name: "iso".to_string(),
                url: "http://x/iso".to_string(),
                sha: None,
                auth_type: None,
                auth_token: None,
                cache_strategy: ArtifactCacheStrategy::Unspecified,
                local_url: None,
            },
        ],
    };
    let r = renderer.fabricate_local_urls(&ipxeos);
    assert!(r.artifacts[0].local_url.is_none());
    assert_eq!(r.artifacts[1].local_url.as_deref(), Some("keep"));
    assert_eq!(r.artifacts[2].local_url.as_deref(), Some("${base_url}/artifacts/iso"));
    assert_eq!(r.tenant_id.as_deref(), Some("tenant"));
    assert_eq!(r.hash, "h");
}

#[test]
fn with_templates_keeps_last_template_per_name() {
    let t = |name: &str, text: &str| carbide_ipxe_renderer::IpxeScriptTemplate {
        name: name.to_string(),
        description: String::new(),
        template: text.to_string(),
        reserved_params: vec![],
        required_params: vec![],
    };
    let renderer = DefaultIpxeOsRenderer::with_templates(vec![
        ("a".to_string(), t("a", "first")),
        ("b".to_string(), t("b", "bee")),
        ("a".to_string(), t("a", "second")),
    ]);
    assert_eq!(renderer.list_templates(), vec!["a".to_string(), "b".to_string()]);
    assert_eq!(renderer.get_template("a").unwrap().template, "second");
    assert_eq!(renderer.get_template("b").unwrap().template, "bee");
    assert!(renderer.get_template("c").is_none());
}

#[test]
fn default_renderer_has_builtin_templates() {
    let renderer = DefaultIpxeOsRenderer::default();
    let mut names = renderer.list_templates();
    names.sort();
    assert_eq!(names, vec!["qcow-image".to_string(), "ubuntu-autoinstall".to_string()]);
}

#[test]
fn fabricating_twice_changes_nothing_more() {
    let renderer = DefaultIpxeOsRenderer::new();
    let ipxeos = IpxeOs {
        name: "t".to_string(),
        description: None,
        hash: "h".to_string(),
        tenant_id: None,
        ipxe_template_name: "ubuntu-autoinstall".to_string(),
        parameters: vec![],
        artifacts: vec![
            IpxeOsArtifact {
                name: "kernel".to_string(),
                url: "http://x/kernel".to_string(),
                sha: Some("abc".to_string()),
                auth_type: None,
                auth_token: None,
                cache_strategy: ArtifactCacheStrategy::CacheAsNeeded,
                local_url: None,
            },
            IpxeOsArtifact {
                name: "initrd".to_string(),
                url: "http://x/initrd".to_string(),
                sha: None,
                auth_type: Some("bearer".to_string()),
                auth_token: Some("token123".to_string()),
                cache_strategy: ArtifactCacheStrategy::RemoteOnly,
                local_url: None,
            },
        ],
    };
    let once = renderer.fabricate_local_urls(&ipxeos);
    let twice = renderer.fabricate_local_urls(&once);
    assert_eq!(once.artifacts[0].local_url.as_deref(), Some("${base_url}/artifacts/kernel-abc"));
    for (a, b) in once.artifacts.iter().zip(twice.artifacts.iter()) {
        assert_eq!(a.local_url, b.local_url);
        assert_eq!(a.auth_token, b.auth_token);
    }
}

#[test]
fn rendered_lines_have_no_trailing_white_space() {
    let template = carbide_ipxe_renderer::IpxeScriptTemplate {
        name: "t".to_string(),
        description: String::new(),
        template: "#!ipxe   \nkernel {{k}}  \t\n   {{extra}}\nboot \r\n".to_string(),
        reserved_params: vec![],
        required_params: vec!["k".to_string()],
    };
    let renderer = DefaultIpxeOsRenderer::with_templates(vec![("t".to_string(), template)]);
    let mut ipxeos = IpxeOs {
        name: "n".to_string(),
        description: None,
        hash: String::new(),
        tenant_id: None,
        ipxe_template_name: "t".to_string(),
        parameters: vec![IpxeOsParameter { name: "k".to_string(), value: "vmlinuz".to_string() }],
        artifacts: vec![],
    };
    ipxeos.hash = renderer.hash(&ipxeos);
    let script = renderer.render(&ipxeos, &[]).unwrap();
    assert_eq!(script, "#!ipxe\nkernel vmlinuz\n\nboot");
}

#[test]
fn hash_is_sixty_four_lowercase_hex_digits() {
    let renderer = DefaultIpxeOsRenderer::new();
    let mut os = create_test_ipxeos();
    os.parameters.push(IpxeOsParameter { name: "ü".to_string(), value: "€".to_string() });
    let h = renderer.hash(&os);
    assert_eq!(h.len(), 64);
    assert!(h.chars().all(|c| c.is_ascii_digit() || ('a' <= c && c <= 'f')));
}

#[test]
fn error_messages() {
    assert_eq!(
        IpxeOsError::TemplateNotFound("x".to_string()).message(),
        "Template not found: x"
    );
    assert_eq!(
        IpxeOsError::ReservedParameterFound("base_url".to_string()).message(),
        "Reserved parameter found in OS definition: base_url"
    );
    assert_eq!(
        IpxeOsError::RequiredParameterMissing("image_url".to_string()).message(),
        "Required parameter missing or empty: image_url"
    );
    assert_eq!(
        IpxeOsError::ExtraParametersNotSupported.message(),
        "Optional parameters provided but {{extra}} not in template"
    );
    assert_eq!(
        IpxeOsError::HashMismatch { expected: "a".to_string(), actual: "b".to_string() }.message(),
        "Hash mismatch: expected a, got b"
    );
    assert_eq!(
        IpxeOsError::ArtifactNotFound("kernel".to_string()).message(),
        "Artifact not found: kernel"
    );
}
