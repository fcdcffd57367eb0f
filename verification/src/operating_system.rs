//! The decisions behind the operating-system definition service: which kind
//! of definition a create request describes and what it stores, what an
//! update request changes, how stored and requested fields merge, and which
//! identifiers of a lookup request are usable.
use vstd::prelude::*;
use crate::model::{copy_artifacts, copy_parameters, IpxeOsArtifact, IpxeOsParameter};

verus! {

// ---------------------------------------------------------------------
// Identifiers
// ---------------------------------------------------------------------

/// The 128-bit value of the UUID that `text` spells, if it spells one.
pub uninterp spec fn uuid_from_text(text: Seq<char>) -> Option<u128>;

/// Calls `uuid::Uuid::parse_str`. Trusted to succeed exactly when `text`
/// spells a UUID, which `uuid_from_text` names, and then to give that
/// UUID's value; on failure it gives the parse error's message, of which
/// nothing is claimed.
#[verifier::external_body]
fn parse_uuid(text: &str) -> (r: Result<u128, String>)
    ensures
        match r {
            Ok(v) => uuid_from_text(text@) == Some(v),
            Err(_) => uuid_from_text(text@) is None,
        },
{
    match uuid::Uuid::parse_str(text) {
        Ok(u) => Ok(u.as_u128()),
        Err(e) => Err(e.to_string()),
    }
}

/// The values of the identifiers that spell a UUID, in order; the others
/// are skipped.
pub open spec fn usable_ids(texts: Seq<String>) -> Seq<u128>
    decreases texts.len(),
{
    if texts.len() == 0 {
        Seq::empty()
    } else {
        let rest = usable_ids(texts.drop_last());
        match uuid_from_text(texts.last()@) {
            Some(v) => rest.push(v),
            None => rest,
        }
    }
}

/// Parses each identifier, keeping the values of those that spell a UUID.
pub fn parse_usable_ids(texts: &Vec<String>) -> (r: Vec<u128>)
    ensures
        r@ == usable_ids(texts@),
{
    let mut r: Vec<u128> = Vec::new();
    let mut i: usize = 0;
    assert(texts@.take(0) =~= Seq::<String>::empty());
    while i < texts.len()
        invariant
            i <= texts.len(),
            r@ == usable_ids(texts@.take(i as int)),
        decreases texts.len() - i,
    {
        assert(texts@.take(i + 1).drop_last() == texts@.take(i as int));
        assert(texts@.take(i + 1).last() == texts@[i as int]);
        match parse_uuid(texts[i].as_str()) {
            Ok(v) => r.push(v),
            Err(_) => {},
        }
        i = i + 1;
    }
    assert(texts@.take(texts.len() as int) == texts@);
    r
}

// ---------------------------------------------------------------------
// Request errors
// ---------------------------------------------------------------------

/// Why a request is refused as an invalid argument.
#[derive(Debug)]
pub enum RequestError {
    /// None of an iPXE script, an OS image or an iPXE template is given.
    MissingVariant,
    /// The OS image identifier is not a UUID; the parser's message.
    InvalidOsImageId(String),
    NameRequired,
    OrgRequired,
    IdRequired,
    /// The definition's identifier is not a UUID; the parser's message.
    InvalidId(String),
    /// A looked-up identifier is not a UUID; the parser's message.
    MalformedId(String),
}

/// The text a refusal carries.
pub open spec fn error_message(e: RequestError) -> Seq<char> {
    match e {
        RequestError::MissingVariant =>
            "exactly one OS variant must be specified: ipxe_script, os_image_id, or ipxe_template_name"@,
        RequestError::InvalidOsImageId(d) => "invalid os_image_id: "@ + d@,
        RequestError::NameRequired => "name is required"@,
        RequestError::OrgRequired => "org is required"@,
        RequestError::IdRequired => "id is required"@,
        RequestError::InvalidId(d) => "invalid id: "@ + d@,
        RequestError::MalformedId(d) => d@,
    }
}

impl RequestError {
    /// The text this refusal carries.
    pub fn message(&self) -> (s: String)
        ensures
            s@ == error_message(*self),
    {
        match self {
            RequestError::MissingVariant => "exactly one OS variant must be specified: ipxe_script, os_image_id, or ipxe_template_name".to_owned(),
            RequestError::InvalidOsImageId(d) => {
                let mut s = "invalid os_image_id: ".to_owned();
                s.append(d.as_str());
                s
            },
            RequestError::NameRequired => "name is required".to_owned(),
            RequestError::OrgRequired => "org is required".to_owned(),
            RequestError::IdRequired => "id is required".to_owned(),
            RequestError::InvalidId(d) => {
                let mut s = "invalid id: ".to_owned();
                s.append(d.as_str());
                s
            },
            RequestError::MalformedId(d) => d.clone(),
        }
    }
}

/// Parses the identifier of a looked-up definition.
pub fn parse_lookup_id(text: &String) -> (r: Result<u128, RequestError>)
    ensures
        match r {
            Ok(v) => uuid_from_text(text@) == Some(v),
            Err(e) => uuid_from_text(text@) is None && e is MalformedId,
        },
{
    match parse_uuid(text.as_str()) {
        Ok(v) => Ok(v),
        Err(d) => Err(RequestError::MalformedId(d)),
    }
}

/// Parses the identifier that an update or delete request must carry.
pub fn parse_required_id(id: &Option<String>) -> (r: Result<u128, RequestError>)
    ensures
        match id {
            None => r matches Err(RequestError::IdRequired),
            Some(t) => match uuid_from_text(t@) {
                Some(v) => r == Ok::<u128, RequestError>(v),
                None => r matches Err(RequestError::InvalidId(_)),
            },
        },
{
    match id {
        None => Err(RequestError::IdRequired),
        Some(t) => match parse_uuid(t.as_str()) {
            Ok(v) => Ok(v),
            Err(d) => Err(RequestError::InvalidId(d)),
        },
    }
}

// ---------------------------------------------------------------------
// Creating a definition
// ---------------------------------------------------------------------

/// The kind of an operating-system definition.
#[derive(Debug, Clone, Copy, PartialEq, Eq, Structural)]
pub enum OperatingSystemType {
    /// A raw iPXE script.
    Ipxe,
    /// An OS image.
    Image,
    /// An iPXE template with parameters and artifacts.
    IpxeOsDefinition,
}

/// The name under which a kind is stored.
pub open spec fn kind_name(t: OperatingSystemType) -> Seq<char> {
    match t {
        OperatingSystemType::Ipxe => "ipxe"@,
        OperatingSystemType::Image => "image"@,
        OperatingSystemType::IpxeOsDefinition => "ipxe_os_definition"@,
    }
}

impl OperatingSystemType {
    /// The name under which this kind is stored.
    pub fn name(&self) -> (s: String)
        ensures
            s@ == kind_name(*self),
    {
        match self {
            OperatingSystemType::Ipxe => "ipxe".to_owned(),
            OperatingSystemType::Image => "image".to_owned(),
            OperatingSystemType::IpxeOsDefinition => "ipxe_os_definition".to_owned(),
        }
    }
}

/// A request to create an operating-system definition. Identifiers are
/// given as text.
pub struct CreateOperatingSystemRequest {
    pub id: Option<String>,
    pub name: String,
    pub description: Option<String>,
    pub org: String,
    pub is_active: bool,
    pub allow_override: bool,
    pub phone_home_enabled: bool,
    pub user_data: Option<String>,
    pub ipxe_script: Option<String>,
    pub os_image_id: Option<String>,
    pub ipxe_template_name: Option<String>,
    pub ipxe_parameters: Vec<IpxeOsParameter>,
    pub ipxe_artifacts: Vec<IpxeOsArtifact>,
}

/// The definition a valid create request stores.
pub struct NewOperatingSystem {
    pub id: Option<u128>,
    pub name: String,
    pub description: Option<String>,
    pub org: String,
    pub type_: OperatingSystemType,
    pub is_active: bool,
    pub allow_override: bool,
    pub phone_home_enabled: bool,
    pub user_data: Option<String>,
    pub ipxe_script: Option<String>,
    pub os_image_id: Option<u128>,
    pub ipxe_template_name: Option<String>,
    pub ipxe_parameters: Option<Vec<IpxeOsParameter>>,
    pub ipxe_artifacts: Option<Vec<IpxeOsArtifact>>,
    pub ipxe_definition_hash: Option<String>,
}

/// The reasons a create request can be refused, in the order they are
/// checked.
pub enum CreateRefusal {
    MissingVariant,
    InvalidOsImageId,
    NameRequired,
    OrgRequired,
    InvalidId,
}

/// Which refusal a create request meets first, if any: the kind must be
/// given (an iPXE script, else an OS image, else an iPXE template, tried in
/// that order) and an OS image's identifier must be a UUID; then the name
/// and the organisation must not be empty; then a given identifier must be a
/// UUID.
pub open spec fn create_refusal(req: CreateOperatingSystemRequest) -> Option<CreateRefusal> {
    if req.ipxe_script is None && req.os_image_id is None && req.ipxe_template_name is None {
        Some(CreateRefusal::MissingVariant)
    } else if req.ipxe_script is None && (req.os_image_id matches Some(t) && uuid_from_text(t@) is None) {
        Some(CreateRefusal::InvalidOsImageId)
    } else if req.name@.len() == 0 {
        Some(CreateRefusal::NameRequired)
    } else if req.org@.len() == 0 {
        Some(CreateRefusal::OrgRequired)
    } else if (req.id matches Some(t) && uuid_from_text(t@) is None) {
        Some(CreateRefusal::InvalidId)
    } else {
        None
    }
}

/// The refusal that a request error stands for.
pub open spec fn refusal_of(e: RequestError) -> Option<CreateRefusal> {
    match e {
        RequestError::MissingVariant => Some(CreateRefusal::MissingVariant),
        RequestError::InvalidOsImageId(_) => Some(CreateRefusal::InvalidOsImageId),
        RequestError::NameRequired => Some(CreateRefusal::NameRequired),
        RequestError::OrgRequired => Some(CreateRefusal::OrgRequired),
        RequestError::InvalidId(_) => Some(CreateRefusal::InvalidId),
        _ => None,
    }
}

/// The kind a create request describes (meaningful when it is not refused
/// for a missing kind).
pub open spec fn requested_type(req: CreateOperatingSystemRequest) -> OperatingSystemType {
    if req.ipxe_script is Some {
        OperatingSystemType::Ipxe
    } else if req.os_image_id is Some {
        OperatingSystemType::Image
    } else {
        OperatingSystemType::IpxeOsDefinition
    }
}

/// `v` holds the given items, stored only when there is at least one.
pub open spec fn stored_when_nonempty<T>(v: Option<Vec<T>>, items: Seq<T>) -> bool {
    if items.len() == 0 {
        v is None
    } else {
        v matches Some(x) && x@ == items
    }
}

/// `n` is what the accepted request `req` stores.
pub open spec fn stores_request(req: CreateOperatingSystemRequest, n: NewOperatingSystem) -> bool {
    let t = requested_type(req);
    &&& n.id == match req.id {
        Some(s) => uuid_from_text(s@),
        None => None,
    }
    &&& n.name == req.name
    &&& n.description == req.description
    &&& n.org == req.org
    &&& n.type_ == t
    &&& n.is_active == req.is_active
    &&& n.allow_override == req.allow_override
    &&& n.phone_home_enabled == req.phone_home_enabled
    &&& n.user_data == req.user_data
    &&& n.ipxe_script == if t == OperatingSystemType::Ipxe {
        req.ipxe_script
    } else {
        None
    }
    &&& n.os_image_id == if t == OperatingSystemType::Image {
        uuid_from_text(req.os_image_id->0@)
    } else {
        None
    }
    &&& n.ipxe_template_name == if t == OperatingSystemType::IpxeOsDefinition {
        req.ipxe_template_name
    } else {
        None
    }
    &&& if t == OperatingSystemType::IpxeOsDefinition {
        &&& stored_when_nonempty(n.ipxe_parameters, req.ipxe_parameters@)
        &&& stored_when_nonempty(n.ipxe_artifacts, req.ipxe_artifacts@)
    } else {
        n.ipxe_parameters is None && n.ipxe_artifacts is None
    }
    &&& n.ipxe_definition_hash is None
}

/// Parameters to store: none when there are none.
fn parameters_when_nonempty(ps: &Vec<IpxeOsParameter>) -> (r: Option<Vec<IpxeOsParameter>>)
    ensures
        stored_when_nonempty(r, ps@),
{
    if ps.len() == 0 {
        None
    } else {
        Some(copy_parameters(ps))
    }
}

/// Artifacts to store: none when there are none.
fn artifacts_when_nonempty(arts: &Vec<IpxeOsArtifact>) -> (r: Option<Vec<IpxeOsArtifact>>)
    ensures
        stored_when_nonempty(r, arts@),
{
    if arts.len() == 0 {
        None
    } else {
        Some(copy_artifacts(arts))
    }
}

/// Decides what a create request stores, or why it is refused.
pub fn plan_create(req: CreateOperatingSystemRequest) -> (r: Result<NewOperatingSystem, RequestError>)
    ensures
        match create_refusal(req) {
            Some(f) => r matches Err(e) && refusal_of(e) == Some(f),
            None => r matches Ok(n) && stores_request(req, n),
        },
{
    let (type_, os_image_id) = if req.ipxe_script.is_some() {
        (OperatingSystemType::Ipxe, None)
    } else if let Some(img) = &req.os_image_id {
        match parse_uuid(img.as_str()) {
            Ok(v) => (OperatingSystemType::Image, Some(v)),
            Err(d) => {
                return Err(RequestError::InvalidOsImageId(d));
            },
        }
    } else if req.ipxe_template_name.is_some() {
        (OperatingSystemType::IpxeOsDefinition, None)
    } else {
        return Err(RequestError::MissingVariant);
    };
    if req.name.as_str().is_empty() {
        return Err(RequestError::NameRequired);
    }
    if req.org.as_str().is_empty() {
        return Err(RequestError::OrgRequired);
    }
    let id = match &req.id {
        Some(t) => match parse_uuid(t.as_str()) {
            Ok(v) => Some(v),
            Err(d) => {
                return Err(RequestError::InvalidId(d));
            },
        },
        None => None,
    };
    let is_template = match type_ {
        OperatingSystemType::IpxeOsDefinition => true,
        _ => false,
    };
    let ipxe_parameters = if is_template {
        parameters_when_nonempty(&req.ipxe_parameters)
    } else {
        None
    };
    let ipxe_artifacts = if is_template {
        artifacts_when_nonempty(&req.ipxe_artifacts)
    } else {
        None
    };
    let ghost whole = req;
    let CreateOperatingSystemRequest {
        id: _,
        name,
        description,
        org,
        is_active,
        allow_override,
        phone_home_enabled,
        user_data,
        ipxe_script,
        os_image_id: _,
        ipxe_template_name,
        ipxe_parameters: _,
        ipxe_artifacts: _,
    } = req;
    let ipxe_script = match type_ {
        OperatingSystemType::Ipxe => ipxe_script,
        _ => None,
    };
    let ipxe_template_name = if is_template {
        ipxe_template_name
    } else {
        None
    };
    Ok(
        NewOperatingSystem {
            id,
            name,
            description,
            org,
            type_,
            is_active,
            allow_override,
            phone_home_enabled,
            user_data,
            ipxe_script,
            os_image_id,
            ipxe_template_name,
            ipxe_parameters,
            ipxe_artifacts,
            ipxe_definition_hash: None,
        },
    )
}

// ---------------------------------------------------------------------
// Updating a definition
// ---------------------------------------------------------------------

/// A request to update an operating-system definition; absent fields keep
/// their stored values.
pub struct UpdateOperatingSystemRequest {
    pub id: Option<String>,
    pub name: Option<String>,
    pub description: Option<String>,
    pub is_active: Option<bool>,
    pub allow_override: Option<bool>,
    pub phone_home_enabled: Option<bool>,
    pub user_data: Option<String>,
    pub ipxe_script: Option<String>,
    pub ipxe_template_name: Option<String>,
    pub ipxe_parameters: Vec<IpxeOsParameter>,
    pub ipxe_artifacts: Vec<IpxeOsArtifact>,
}

/// The changes an update request makes, with its parameters and artifacts
/// in whatever forms `P` and `A` they are held in.
pub struct OperatingSystemChanges<P, A> {
    pub name: Option<String>,
    pub description: Option<String>,
    pub is_active: Option<bool>,
    pub allow_override: Option<bool>,
    pub phone_home_enabled: Option<bool>,
    pub user_data: Option<String>,
    pub ipxe_script: Option<String>,
    pub ipxe_template_name: Option<String>,
    pub ipxe_parameters: Option<P>,
    pub ipxe_artifacts: Option<A>,
}

/// The definition's identifier and the changes of an update request, with
/// parameters and artifacts as the request gives them (none when the request
/// gives none).
pub fn plan_update(req: UpdateOperatingSystemRequest) -> (r: Result<
    (u128, OperatingSystemChanges<Vec<IpxeOsParameter>, Vec<IpxeOsArtifact>>),
    RequestError,
>)
    ensures
        match req.id {
            None => r matches Err(RequestError::IdRequired),
            Some(t) => match uuid_from_text(t@) {
                None => r matches Err(RequestError::InvalidId(_)),
                Some(v) => r matches Ok((id, c)) && id == v && c.name == req.name
                    && c.description == req.description && c.is_active == req.is_active
                    && c.allow_override == req.allow_override && c.phone_home_enabled
                    == req.phone_home_enabled && c.user_data == req.user_data && c.ipxe_script
                    == req.ipxe_script && c.ipxe_template_name == req.ipxe_template_name
                    && stored_when_nonempty(c.ipxe_parameters, req.ipxe_parameters@)
                    && stored_when_nonempty(c.ipxe_artifacts, req.ipxe_artifacts@),
            },
        },
{
    let id = match parse_required_id(&req.id) {
        Ok(v) => v,
        Err(e) => {
            return Err(e);
        },
    };
    let ipxe_parameters = parameters_when_nonempty(&req.ipxe_parameters);
    let ipxe_artifacts = artifacts_when_nonempty(&req.ipxe_artifacts);
    let UpdateOperatingSystemRequest {
        id: _,
        name,
        description,
        is_active,
        allow_override,
        phone_home_enabled,
        user_data,
        ipxe_script,
        ipxe_template_name,
        ipxe_parameters: _,
        ipxe_artifacts: _,
    } = req;
    Ok(
        (
            id,
            OperatingSystemChanges {
                name,
                description,
                is_active,
                allow_override,
                phone_home_enabled,
                user_data,
                ipxe_script,
                ipxe_template_name,
                ipxe_parameters,
                ipxe_artifacts,
            },
        ),
    )
}

/// The stored fields of a definition that an update may change, with its
/// parameters and artifacts in whatever forms `P` and `A` they are held in.
pub struct OperatingSystemFields<P, A> {
    pub name: String,
    pub description: Option<String>,
    pub is_active: bool,
    pub allow_override: bool,
    pub phone_home_enabled: bool,
    pub user_data: Option<String>,
    pub ipxe_script: Option<String>,
    pub ipxe_template_name: Option<String>,
    pub ipxe_parameters: Option<P>,
    pub ipxe_artifacts: Option<A>,
}

/// `a` if given, else `b`.
pub open spec fn either<T>(a: Option<T>, b: Option<T>) -> Option<T> {
    match a {
        Some(x) => Some(x),
        None => b,
    }
}

/// Every field that the changes give takes the given value; every other
/// field keeps its stored value.
pub fn merge_update<P, A>(existing: OperatingSystemFields<P, A>, changes: OperatingSystemChanges<P, A>) -> (r: OperatingSystemFields<P, A>)
    ensures
        r.name == match changes.name {
            Some(n) => n,
            None => existing.name,
        },
        r.description == either(changes.description, existing.description),
        r.is_active == match changes.is_active {
            Some(b) => b,
            None => existing.is_active,
        },
        r.allow_override == match changes.allow_override {
            Some(b) => b,
            None => existing.allow_override,
        },
        r.phone_home_enabled == match changes.phone_home_enabled {
            Some(b) => b,
            None => existing.phone_home_enabled,
        },
        r.user_data == either(changes.user_data, existing.user_data),
        r.ipxe_script == either(changes.ipxe_script, existing.ipxe_script),
        r.ipxe_template_name == either(changes.ipxe_template_name, existing.ipxe_template_name),
        r.ipxe_parameters == either(changes.ipxe_parameters, existing.ipxe_parameters),
        r.ipxe_artifacts == either(changes.ipxe_artifacts, existing.ipxe_artifacts),
{
    OperatingSystemFields {
        name: match changes.name {
            Some(n) => n,
            None => existing.name,
        },
        description: match changes.description {
            Some(d) => Some(d),
            None => existing.description,
        },
        is_active: match changes.is_active {
            Some(b) => b,
            None => existing.is_active,
        },
        allow_override: match changes.allow_override {
            Some(b) => b,
            None => existing.allow_override,
        },
        phone_home_enabled: match changes.phone_home_enabled {
            Some(b) => b,
            None => existing.phone_home_enabled,
        },
        user_data: match changes.user_data {
            Some(d) => Some(d),
            None => existing.user_data,
        },
        ipxe_script: match changes.ipxe_script {
            Some(d) => Some(d),
            None => existing.ipxe_script,
        },
        ipxe_template_name: match changes.ipxe_template_name {
            Some(d) => Some(d),
            None => existing.ipxe_template_name,
        },
        ipxe_parameters: match changes.ipxe_parameters {
            Some(d) => Some(d),
            None => existing.ipxe_parameters,
        },
        ipxe_artifacts: match changes.ipxe_artifacts {
            Some(d) => Some(d),
            None => existing.ipxe_artifacts,
        },
    }
}

} // verus!
