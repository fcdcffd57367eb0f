use carbide_ipxe_renderer::operating_system::{
    merge_update, parse_lookup_id, parse_required_id, parse_usable_ids, plan_create, plan_update,
    CreateOperatingSystemRequest, OperatingSystemChanges, OperatingSystemFields,
    OperatingSystemType, RequestError, UpdateOperatingSystemRequest,
};
use carbide_ipxe_renderer::{ArtifactCacheStrategy, IpxeOsArtifact, IpxeOsParameter};

const ID: &str = "550e8400-e29b-41d4-a716-446655440000";

fn base_request() -> CreateOperatingSystemRequest {
    CreateOperatingSystemRequest {
        id: None,
        name: "os".to_string(),
        description: Some("desc".to_string()),
        org: "org".to_string(),
        is_active: true,
        allow_override: false,
        phone_home_enabled: true,
        user_data: None,
        ipxe_script: None,
        os_image_id: None,
        ipxe_template_name: None,
        ipxe_parameters: vec![],
        ipxe_artifacts: vec![],
    }
}

fn param(name: &str, value: &str) -> IpxeOsParameter {
    IpxeOsParameter { name: name.to_string(), value: value.to_string() }
}

#[test]
fn create_with_script_is_ipxe() {
    let mut req = base_request();
    req.ipxe_script = Some("#!ipxe".to_string());
    req.os_image_id = Some("not a uuid".to_string());
    req.ipxe_parameters = vec![param("a", "b")];
    let n = plan_create(req).unwrap();
    assert_eq!(n.type_, OperatingSystemType::Ipxe);
    assert_eq!(n.type_.name(), "ipxe");
    assert_eq!(n.ipxe_script.as_deref(), Some("#!ipxe"));
    assert!(n.os_image_id.is_none());
    assert!(n.ipxe_parameters.is_none());
    assert!(n.ipxe_definition_hash.is_none());
    assert_eq!(n.name, "os");
    assert_eq!(n.org, "org");
    assert_eq!(n.description.as_deref(), Some("desc"));
    assert!(n.is_active && !n.allow_override && n.phone_home_enabled);
}

#[test]
fn create_with_image_parses_uuid() {
    let mut req = base_request();
    req.os_image_id = Some(ID.to_string());
    let n = plan_create(req).unwrap();
    assert_eq!(n.type_, OperatingSystemType::Image);
    assert_eq!(n.type_.name(), "image");
    assert_eq!(n.os_image_id, Some(uuid::Uuid::parse_str(ID).unwrap().as_u128()));
}

#[test]
fn create_with_bad_image_id_is_refused() {
    let mut req = base_request();
    req.os_image_id = Some("zzz".to_string());
    req.name = String::new();
    match plan_create(req) {
        Err(e @ RequestError::InvalidOsImageId(_)) => {
            assert!(e.message().starts_with("invalid os_image_id: "));
            assert!(e.message().len() > "invalid os_image_id: ".len());
        }
        other => panic!("unexpected {:?}", other.err()),
    }
}

#[test]
fn create_with_template_keeps_nonempty_parameters() {
    let mut req = base_request();
    req.ipxe_template_name = Some("qcow-image".to_string());
    req.ipxe_parameters = vec![param("image_url", "http://x")];
    let n = plan_create(req).unwrap();
    assert_eq!(n.type_, OperatingSystemType::IpxeOsDefinition);
    assert_eq!(n.type_.name(), "ipxe_os_definition");
    assert_eq!(n.ipxe_template_name.as_deref(), Some("qcow-image"));
    assert_eq!(n.ipxe_parameters, Some(vec![param("image_url", "http://x")]));
    assert!(n.ipxe_artifacts.is_none());
}

#[test]
fn create_without_variant_is_refused() {
    let req = base_request();
    let e = plan_create(req).err().unwrap();
    assert!(matches!(e, RequestError::MissingVariant));
    assert_eq!(
        e.message(),
        "exactly one OS variant must be specified: ipxe_script, os_image_id, or ipxe_template_name"
    );
}

#[test]
fn create_requires_name_then_org() {
    let mut req = base_request();
    req.ipxe_script = Some("s".to_string());
    req.name = String::new();
    req.org = String::new();
    let e = plan_create(req).err().unwrap();
    assert!(matches!(e, RequestError::NameRequired));
    assert_eq!(e.message(), "name is required");
    let mut req = base_request();
    req.ipxe_script = Some("s".to_string());
    req.org = String::new();
    let e = plan_create(req).err().unwrap();
    assert!(matches!(e, RequestError::OrgRequired));
    assert_eq!(e.message(), "org is required");
}

#[test]
fn create_checks_given_id() {
    let mut req = base_request();
    req.ipxe_script = Some("s".to_string());
    req.id = Some("bad".to_string());
    let e = plan_create(req).err().unwrap();
    assert!(matches!(e, RequestError::InvalidId(_)));
    assert!(e.message().starts_with("invalid id: "));
    let mut req = base_request();
    req.ipxe_script = Some("s".to_string());
    req.id = Some(ID.to_string());
    let n = plan_create(req).unwrap();
    assert_eq!(n.id, Some(uuid::Uuid::parse_str(ID).unwrap().as_u128()));
}

#[test]
fn required_id_is_checked() {
    assert!(matches!(parse_required_id(&None), Err(RequestError::IdRequired)));
    assert_eq!(RequestError::IdRequired.message(), "id is required");
    assert!(matches!(parse_required_id(&Some("x".to_string())), Err(RequestError::InvalidId(_))));
    assert_eq!(
        parse_required_id(&Some(ID.to_string())).unwrap(),
        0x550e8400_e29b_41d4_a716_446655440000u128
    );
}

#[test]
fn lookup_id_error_is_the_parser_message() {
    let e = parse_lookup_id(&"nope".to_string()).err().unwrap();
    let expected = uuid::Uuid::parse_str("nope").unwrap_err().to_string();
    assert_eq!(e.message(), expected);
    assert_eq!(parse_lookup_id(&ID.to_string()).unwrap(), 0x550e8400_e29b_41d4_a716_446655440000u128);
}

#[test]
fn usable_ids_skip_malformed() {
    let ids = vec![
        ID.to_string(),
        "garbage".to_string(),
        "00000000-0000-0000-0000-000000000001".to_string(),
    ];
    assert_eq!(parse_usable_ids(&ids), vec![0x550e8400_e29b_41d4_a716_446655440000u128, 1u128]);
    assert!(parse_usable_ids(&vec![]).is_empty());
}

#[test]
fn update_plan_drops_empty_lists() {
    let req = UpdateOperatingSystemRequest {
        id: Some(ID.to_string()),
        name: Some("new".to_string()),
        description: None,
        is_active: Some(false),
        allow_override: None,
        phone_home_enabled: None,
        user_data: None,
        ipxe_script: None,
        ipxe_template_name: None,
        ipxe_parameters: vec![],
        ipxe_artifacts: vec![IpxeOsArtifact {
            name: "kernel".to_string(),
            url: "http://k".to_string(),
            sha: None,
            auth_type: None,
            auth_token: None,
            cache_strategy: ArtifactCacheStrategy::CacheAsNeeded,
            local_url: None,
        }],
    };
    let (id, c) = plan_update(req).unwrap();
    assert_eq!(id, 0x550e8400_e29b_41d4_a716_446655440000u128);
    assert_eq!(c.name.as_deref(), Some("new"));
    assert_eq!(c.is_active, Some(false));
    assert!(c.ipxe_parameters.is_none());
    assert_eq!(c.ipxe_artifacts.unwrap().len(), 1);
}

#[test]
fn update_plan_requires_id() {
    let req = UpdateOperatingSystemRequest {
        id: None,
        name: None,
        description: None,
        is_active: None,
        allow_override: None,
        phone_home_enabled: None,
        user_data: None,
        ipxe_script: None,
        ipxe_template_name: None,
        ipxe_parameters: vec![],
        ipxe_artifacts: vec![],
    };
    assert!(matches!(plan_update(req), Err(RequestError::IdRequired)));
}

#[test]
fn merge_prefers_given_fields() {
    let existing = OperatingSystemFields {
        name: "old".to_string(),
        description: Some("old desc".to_string()),
        is_active: true,
        allow_override: true,
        phone_home_enabled: false,
        user_data: Some("ud".to_string()),
        ipxe_script: None,
        ipxe_template_name: Some("t".to_string()),
        ipxe_parameters: Some(1u32),
        ipxe_artifacts: Some(2u32),
    };
    let changes = OperatingSystemChanges {
        name: None,
        description: Some("new desc".to_string()),
        is_active: Some(false),
        allow_override: None,
        phone_home_enabled: Some(true),
        user_data: None,
        ipxe_script: Some("s".to_string()),
        ipxe_template_name: None,
        ipxe_parameters: Some(10u32),
        ipxe_artifacts: None,
    };
    let m = merge_update(existing, changes);
    assert_eq!(m.name, "old");
    assert_eq!(m.description.as_deref(), Some("new desc"));
    assert!(!m.is_active);
    assert!(m.allow_override);
    assert!(m.phone_home_enabled);
    assert_eq!(m.user_data.as_deref(), Some("ud"));
    assert_eq!(m.ipxe_script.as_deref(), Some("s"));
    assert_eq!(m.ipxe_template_name.as_deref(), Some("t"));
    assert_eq!(m.ipxe_parameters, Some(10));
    assert_eq!(m.ipxe_artifacts, Some(2));
}
