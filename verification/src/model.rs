//! The data that an iPXE OS definition and a script template carry, and the
//! errors that checking and rendering them can give.
use vstd::prelude::*;

verus! {

/// iPXE OS definition with template-based rendering support
#[derive(Debug, Clone)]
pub struct IpxeOs {
    pub name: String,
    pub description: Option<String>,
    pub hash: String,
    pub tenant_id: Option<String>,
    pub ipxe_template_name: String,
    pub parameters: Vec<IpxeOsParameter>,
    pub artifacts: Vec<IpxeOsArtifact>,
}

/// OS scope enum
#[derive(Debug, Clone, PartialEq, Eq, Structural)]
pub enum OsScope {
    Unspecified,
    /// Cloud-managed, synced to sites
    Global,
    /// Site-managed, editable locally
    Local,
}

/// Parameter for iPXE template substitution
#[derive(Debug, Clone)]
pub struct IpxeOsParameter {
    pub name: String,
    pub value: String,
}

impl PartialEq for IpxeOsParameter {
    fn eq(&self, other: &Self) -> (r: bool) {
        self.name.eq(&other.name) && self.value.eq(&other.value)
    }
}

impl vstd::std_specs::cmp::PartialEqSpecImpl for IpxeOsParameter {
    open spec fn obeys_eq_spec() -> bool {
        true
    }

    open spec fn eq_spec(&self, other: &Self) -> bool {
        self.name@ == other.name@ && self.value@ == other.value@
    }
}

/// Artifact cache strategy
#[derive(Debug, Clone, PartialEq, Eq, Structural)]
pub enum ArtifactCacheStrategy {
    Unspecified,
    /// Download and cache artifact locally per policy (default)
    CacheAsNeeded,
    /// Artifact can only be used locally, fail if not available
    LocalOnly,
    /// Always fetch from remote URL, never cache locally
    RemoteOnly,
}

/// Remote artifact to allow awareness for potential local caching/proxy
#[derive(Debug, Clone)]
pub struct IpxeOsArtifact {
    pub name: String,
    pub url: String,
    pub sha: Option<String>,
    pub auth_type: Option<String>,
    pub auth_token: Option<String>,
    pub cache_strategy: ArtifactCacheStrategy,
    pub local_url: Option<String>,
}

/// iPXE script template definition
#[derive(Debug, Clone)]
pub struct IpxeScriptTemplate {
    pub name: String,
    pub description: String,
    /// iPXE script template: `#!ipxe\n...`
    pub template: String,
    pub reserved_params: Vec<String>,
    pub required_params: Vec<String>,
}

/// Error types for iPXE OS rendering
#[derive(Debug)]
pub enum IpxeOsError {
    TemplateNotFound(String),
    ReservedParameterFound(String),
    RequiredParameterMissing(String),
    ExtraParametersNotSupported,
    HashMismatch { expected: String, actual: String },
    ArtifactNotFound(String),
}

/// What an `IpxeOsError` says, with its texts as character sequences.
pub enum IpxeOsErrorView {
    TemplateNotFound(Seq<char>),
    ReservedParameterFound(Seq<char>),
    RequiredParameterMissing(Seq<char>),
    ExtraParametersNotSupported,
    HashMismatch { expected: Seq<char>, actual: Seq<char> },
    ArtifactNotFound(Seq<char>),
}

impl View for IpxeOsError {
    type V = IpxeOsErrorView;

    open spec fn view(&self) -> IpxeOsErrorView {
        match self {
            IpxeOsError::TemplateNotFound(n) => IpxeOsErrorView::TemplateNotFound(n@),
            IpxeOsError::ReservedParameterFound(n) => IpxeOsErrorView::ReservedParameterFound(n@),
            IpxeOsError::RequiredParameterMissing(n) => IpxeOsErrorView::RequiredParameterMissing(
                n@,
            ),
            IpxeOsError::ExtraParametersNotSupported => IpxeOsErrorView::ExtraParametersNotSupported,
            IpxeOsError::HashMismatch { expected, actual } => IpxeOsErrorView::HashMismatch {
                expected: expected@,
                actual: actual@,
            },
            IpxeOsError::ArtifactNotFound(n) => IpxeOsErrorView::ArtifactNotFound(n@),
        }
    }
}

/// The message an error shows.
pub open spec fn error_text(e: IpxeOsErrorView) -> Seq<char> {
    match e {
        IpxeOsErrorView::TemplateNotFound(n) => "Template not found: "@ + n,
        IpxeOsErrorView::ReservedParameterFound(n) => "Reserved parameter found in OS definition: "@ + n,
        IpxeOsErrorView::RequiredParameterMissing(n) => "Required parameter missing or empty: "@ + n,
        IpxeOsErrorView::ExtraParametersNotSupported =>
            "Optional parameters provided but {{extra}} not in template"@,
        IpxeOsErrorView::HashMismatch { expected, actual } => "Hash mismatch: expected "@ + expected
            + ", got "@ + actual,
        IpxeOsErrorView::ArtifactNotFound(n) => "Artifact not found: "@ + n,
    }
}

impl IpxeOsError {
    /// The message this error shows.
    pub fn message(&self) -> (s: String)
        ensures
            s@ == error_text(self@),
    {
        match self {
            IpxeOsError::TemplateNotFound(n) => {
                let mut s = "Template not found: ".to_owned();
                s.append(n.as_str());
                s
            },
            IpxeOsError::ReservedParameterFound(n) => {
                let mut s = "Reserved parameter found in OS definition: ".to_owned();
                s.append(n.as_str());
                s
            },
            IpxeOsError::RequiredParameterMissing(n) => {
                let mut s = "Required parameter missing or empty: ".to_owned();
                s.append(n.as_str());
                s
            },
            IpxeOsError::ExtraParametersNotSupported => "Optional parameters provided but {{extra}} not in template".to_owned(),
            IpxeOsError::HashMismatch { expected, actual } => {
                let mut s = "Hash mismatch: expected ".to_owned();
                s.append(expected.as_str());
                s.append(", got ");
                s.append(actual.as_str());
                s
            },
            IpxeOsError::ArtifactNotFound(n) => {
                let mut s = "Artifact not found: ".to_owned();
                s.append(n.as_str());
                s
            },
        }
    }
}

/// The character sequences of a sequence of strings.
pub open spec fn string_views(v: Seq<String>) -> Seq<Seq<char>> {
    v.map_values(|s: String| s@)
}

/// A copy of an optional string.
pub fn copy_opt_string(o: &Option<String>) -> (r: Option<String>)
    ensures
        r == *o,
{
    match o {
        Some(s) => Some(s.clone()),
        None => None,
    }
}

/// A copy of a vector of strings.
pub fn copy_strings(v: &Vec<String>) -> (r: Vec<String>)
    ensures
        r@ == v@,
{
    let mut r: Vec<String> = Vec::new();
    let mut i: usize = 0;
    while i < v.len()
        invariant
            i <= v.len(),
            r@ == v@.take(i as int),
        decreases v.len() - i,
    {
        r.push(v[i].clone());
        i = i + 1;
        assert(v@.take(i as int) == v@.take(i - 1).push(v@[i - 1]));
    }
    assert(v@.take(v.len() as int) == v@);
    r
}

impl ArtifactCacheStrategy {
    /// A copy of this strategy.
    pub fn copy(&self) -> (r: Self)
        ensures
            r == *self,
    {
        match self {
            ArtifactCacheStrategy::Unspecified => ArtifactCacheStrategy::Unspecified,
            ArtifactCacheStrategy::CacheAsNeeded => ArtifactCacheStrategy::CacheAsNeeded,
            ArtifactCacheStrategy::LocalOnly => ArtifactCacheStrategy::LocalOnly,
            ArtifactCacheStrategy::RemoteOnly => ArtifactCacheStrategy::RemoteOnly,
        }
    }
}

impl IpxeOsParameter {
    /// A copy of this parameter.
    pub fn copy(&self) -> (r: Self)
        ensures
            r == *self,
    {
        IpxeOsParameter { name: self.name.clone(), value: self.value.clone() }
    }
}

impl IpxeOsArtifact {
    /// A copy of this artifact.
    pub fn copy(&self) -> (r: Self)
        ensures
            r == *self,
    {
        IpxeOsArtifact {
            name: self.name.clone(),
            url: self.url.clone(),
            sha: copy_opt_string(&self.sha),
            auth_type: copy_opt_string(&self.auth_type),
            auth_token: copy_opt_string(&self.auth_token),
            cache_strategy: self.cache_strategy.copy(),
            local_url: copy_opt_string(&self.local_url),
        }
    }
}

impl IpxeScriptTemplate {
    /// A copy of this template.
    pub fn copy(&self) -> (r: Self)
        ensures
            r.name == self.name,
            r.description == self.description,
            r.template == self.template,
            r.reserved_params@ == self.reserved_params@,
            r.required_params@ == self.required_params@,
    {
        IpxeScriptTemplate {
            name: self.name.clone(),
            description: self.description.clone(),
            template: self.template.clone(),
            reserved_params: copy_strings(&self.reserved_params),
            required_params: copy_strings(&self.required_params),
        }
    }
}

/// A copy of a vector of parameters.
pub fn copy_parameters(v: &Vec<IpxeOsParameter>) -> (r: Vec<IpxeOsParameter>)
    ensures
        r@ == v@,
{
    let mut r: Vec<IpxeOsParameter> = Vec::new();
    let mut i: usize = 0;
    while i < v.len()
        invariant
            i <= v.len(),
            r@ == v@.take(i as int),
        decreases v.len() - i,
    {
        r.push(v[i].copy());
        i = i + 1;
        assert(v@.take(i as int) == v@.take(i - 1).push(v@[i - 1]));
    }
    assert(v@.take(v.len() as int) == v@);
    r
}

/// A copy of a vector of artifacts.
pub fn copy_artifacts(v: &Vec<IpxeOsArtifact>) -> (r: Vec<IpxeOsArtifact>)
    ensures
        r@ == v@,
{
    let mut r: Vec<IpxeOsArtifact> = Vec::new();
    let mut i: usize = 0;
    while i < v.len()
        invariant
            i <= v.len(),
            r@ == v@.take(i as int),
        decreases v.len() - i,
    {
        r.push(v[i].copy());
        i = i + 1;
        assert(v@.take(i as int) == v@.take(i - 1).push(v@[i - 1]));
    }
    assert(v@.take(v.len() as int) == v@);
    r
}

} // verus!
