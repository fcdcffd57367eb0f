use carbide_ipxe_renderer::listing::{
    definition_table_row, describe_definition, describe_template, join_strings,
    template_table_row, IpxeTemplateInfo, OperatingSystemDefinition,
};
use carbide_ipxe_renderer::{ArtifactCacheStrategy, IpxeOsArtifact, IpxeOsParameter};

fn definition() -> OperatingSystemDefinition {
    OperatingSystemDefinition {
        id: "id-1".to_string(),
        name: "Ubuntu".to_string(),
        org: "acme".to_string(),
        type_: "ipxe_os_definition".to_string(),
        status: "Ready".to_string(),
        is_active: true,
        allow_override: false,
        phone_home_enabled: true,
        created: "2024-01-01".to_string(),
        updated: "2024-01-02".to_string(),
        description: Some("desc".to_string()),
        user_data: None,
        ipxe_script: Some("#!ipxe\nboot".to_string()),
        ipxe_template_name: Some("ubuntu-autoinstall".to_string()),
        os_image_id: None,
        ipxe_parameters: vec![IpxeOsParameter { name: "k".to_string(), value: "v".to_string() }],
        ipxe_artifacts: vec![IpxeOsArtifact {
            name: "kernel".to_string(),
            url: "http://k".to_string(),
            sha: None,
            auth_type: None,
            auth_token: None,
            cache_strategy: ArtifactCacheStrategy::Unspecified,
            local_url: None,
        }],
    }
}

#[test]
fn definition_details_lines() {
    let lines = describe_definition(&definition());
    let expected: Vec<&str> = vec![
        "ID:                  id-1",
        "Name:                Ubuntu",
        "Org:                 acme",
        "Type:                ipxe_os_definition",
        "Status:              Ready",
        "Active:              true",
        "Allow Override:      false",
        "Phone Home Enabled:  true",
        "Created:             2024-01-01",
        "Updated:             2024-01-02",
        "Description:         desc",
        "\niPXE Script:\n---\n#!ipxe\nboot\n---",
        "iPXE Template:       ubuntu-autoinstall",
        "\niPXE Parameters:",
        "  k=v",
        "\niPXE Artifacts:",
        "  kernel -> http://k",
    ];
    assert_eq!(lines, expected);
}

#[test]
fn definition_details_without_optional_parts() {
    let mut os = definition();
    os.description = None;
    os.ipxe_script = None;
    os.ipxe_template_name = None;
    os.os_image_id = Some("img".to_string());
    os.user_data = Some("cloud-config".to_string());
    os.ipxe_parameters.clear();
    os.ipxe_artifacts.clear();
    let lines = describe_definition(&os);
    assert_eq!(lines.len(), 12);
    assert_eq!(lines[10], "User Data:           cloud-config");
    assert_eq!(lines[11], "OS Image ID:         img");
}

#[test]
fn definition_row_cells() {
    let mut os = definition();
    assert_eq!(
        definition_table_row(&os),
        vec!["id-1", "Ubuntu", "acme", "ipxe_os_definition", "Ready", "yes"]
    );
    os.is_active = false;
    assert_eq!(definition_table_row(&os)[5], "no");
}

#[test]
fn template_details_and_row() {
    let t = IpxeTemplateInfo {
        name: "qcow-image".to_string(),
        description: "Qcow".to_string(),
        template: "#!ipxe".to_string(),
        required_params: vec!["image_url".to_string(), "x".to_string()],
        reserved_params: vec![],
        required_artifacts: vec!["kernel".to_string()],
    };
    assert_eq!(
        describe_template(&t),
        vec![
            "Name:        qcow-image",
            "Description: Qcow",
            "Required params:    image_url, x",
            "Required artifacts: kernel",
            "\nTemplate:\n---\n#!ipxe\n---",
        ]
    );
    assert_eq!(template_table_row(&t), vec!["qcow-image", "Qcow", "image_url, x", "kernel"]);
}

#[test]
fn join_strings_separates_neighbours_only() {
    assert_eq!(join_strings(&vec![], ", "), "");
    assert_eq!(join_strings(&vec!["a".to_string()], ", "), "a");
    assert_eq!(join_strings(&vec!["a".to_string(), "b".to_string(), "c".to_string()], "-"), "a-b-c");
}

#[test]
fn not_found_messages() {
    assert_eq!(
        carbide_ipxe_renderer::listing::operating_system_not_found_message("abc"),
        "Operating system not found: abc"
    );
    assert_eq!(
        carbide_ipxe_renderer::listing::template_not_found_message("qcow"),
        "iPXE template not found: qcow"
    );
}
