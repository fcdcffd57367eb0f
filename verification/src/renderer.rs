//! The renderer: a set of named script templates, and the operations that
//! check an iPXE OS definition against them and render it to a boot script.
use vstd::prelude::*;
use crate::digest::{compute_definition_hash, definition_hash, is_lower_hex_digit};
use crate::entries::{distinct_keys, lemma_keys_lookup, find_key, keys_of, lemma_key_index_bounds, lemma_upsert_distinct, lookup, upsert, upsert_entry};
use crate::model::{
    copy_opt_string, copy_parameters, copy_strings, string_views, ArtifactCacheStrategy, IpxeOs,
    IpxeOsArtifact, IpxeOsError, IpxeOsErrorView, IpxeOsParameter, IpxeScriptTemplate,
};
use crate::script::{
    artifact_names, extra_text, finish, finish_script, insert_artifact_urls, insert_artifact_values,
    insert_parameter_values, insert_parameters, substitute, substitute_all,
};
use crate::text::{chars_of, contains, contains_seq, string_of};
use crate::validation::{
    find_extra_parameter, find_missing, find_reserved_artifact, find_reserved_parameter,
    template_names_used, validation_error,
};

verus! {

/// The script of the built-in `qcow-image` template.
pub const QCOW_IMAGE_SCRIPT: &'static str = "#!ipxe
# Generic multi-platform template iPXE script for qcow images

# 1. Detect architecture using buildarch
# Standard values are 'x86_64' for Intel/AMD and 'arm64' for AArch64
iseq ${buildarch} x86_64 && set arch x86_64 ||
iseq ${buildarch} arm64  && set arch aarch64 || set arch unknown

# 2. Safety check
iseq ${arch} unknown && echo \"Unsupported architecture!\" && exit 1

# 3. Set base URL for local artifacts and console specific to hardware:
set base_url {{base_url}}
set console {{console}}

# 4. Boot qcow-imager with parameters:
chain ${base_url}/internal/${buildarch}/qcow-imager.efi loglevel=7 console=tty0 pci=realloc=off console={{console}} image_url={{image_url}} {{extra}}
boot
";

/// The script of the built-in `ubuntu-autoinstall` template.
pub const UBUNTU_AUTOINSTALL_SCRIPT: &'static str = "#!ipxe
# Ubuntu autoinstall template

set base_url {{base_url}}
set console {{console}}

kernel {{kernel}} ip=dhcp url={{install_iso}} autoinstall ds=nocloud-net;s=${base_url}/user-data/ console={{console}}
initrd {{initrd}}
boot
";


/// The literal text of a built-in template script, as characters.
pub open spec fn builtin_script(name: Seq<char>) -> Seq<char> {
    if name == "qcow-image"@ {
        QCOW_IMAGE_SCRIPT@
    } else {
        UBUNTU_AUTOINSTALL_SCRIPT@
    }
}

/// IpxeOsRenderer is the trait for rendering IPXEOS objects to iPXE scripts
pub trait IpxeOsRenderer {
    /// Render generates the final iPXE script from an IpxeOs object.
    /// `reserved_params` must contain exactly the reserved parameters defined
    /// in the template (provided by carbide-core).
    fn render(&self, ipxeos: &IpxeOs, reserved_params: &[IpxeOsParameter]) -> std::result::Result<
        String,
        IpxeOsError,
    >;

    /// RenderWithArtifactSubstitution generates the final iPXE script with
    /// artifact URLs replaced by local cached URLs when available.
    /// `reserved_params` must contain exactly the reserved parameters defined
    /// in the template (provided by carbide-core).
    fn render_with_artifact_substitution(
        &self,
        ipxeos: &IpxeOs,
        reserved_params: &[IpxeOsParameter],
    ) -> std::result::Result<String, IpxeOsError>;

    /// GetTemplate returns a template by name
    fn get_template(&self, name: &str) -> Option<&IpxeScriptTemplate>;

    /// ListTemplates returns all available template names
    fn list_templates(&self) -> Vec<String>;

    /// Validate checks if an IpxeOs object is valid for rendering.
    /// Returns error if:
    /// - Reserved parameters appear in OS definition parameters or artifacts
    /// - Required parameters/artifacts are missing or empty
    /// - Optional parameters are provided but {{extra}} not in template
    /// - Hash does not match hash in OS definition
    fn validate(&self, ipxeos: &IpxeOs) -> std::result::Result<(), IpxeOsError>;

    /// Hash returns a deterministic hash of an IpxeOs object.
    /// Includes: template name, all parameters, and artifact fields
    /// except cache_strategy, local_url, and hash field itself.
    fn hash(&self, ipxeos: &IpxeOs) -> String;

    /// FabricateLocalURLs generates local URLs for artifacts based on specific rules:
    /// - If URL contains a variable: skip (already local)
    /// - If CacheStrategy is REMOTE_ONLY: skip (cannot be cached)
    /// - Otherwise: generate ${base_url}/artifacts/<name>, followed by
    ///   `-<sha>` when the artifact has a checksum
    fn fabricate_local_urls(&self, ipxeos: &IpxeOs) -> IpxeOs;
}

/// Default implementation of IpxeOsRenderer
pub struct DefaultIpxeOsRenderer {
    templates: Vec<(String, IpxeScriptTemplate)>,
}

impl DefaultIpxeOsRenderer {
    #[verifier::type_invariant]
    spec fn wf(self) -> bool {
        distinct_keys(self.templates@)
    }

    /// The template stored under `name`.
    pub closed spec fn template_named(self, name: Seq<char>) -> Option<IpxeScriptTemplate> {
        lookup(self.templates@, name)
    }

    /// The names under which templates are stored, in the order they were
    /// first stored.
    pub closed spec fn template_names(self) -> Seq<Seq<char>> {
        keys_of(self.templates@)
    }

    /// The renderer holds exactly the two built-in templates.
    pub open spec fn has_builtin_templates(self) -> bool {
        &&& self.template_names() == seq!["qcow-image"@, "ubuntu-autoinstall"@]
        &&& forall|n: Seq<char>| #[trigger]
            self.template_named(n) is Some <==> (n == "qcow-image"@ || n == "ubuntu-autoinstall"@)
        &&& self.template_named("qcow-image"@) matches Some(t) && builtin_template(t, "qcow-image"@)
        &&& self.template_named("ubuntu-autoinstall"@) matches Some(t) && builtin_template(
            t,
            "ubuntu-autoinstall"@,
        )
    }

    fn builtin(name: &str, description: &str, script: &str, required: Vec<String>) -> (t: IpxeScriptTemplate)
        ensures
            t.name@ == name@,
            t.description@ == description@,
            t.template@ == script@,
            string_views(t.required_params@) == string_views(required@),
            string_views(t.reserved_params@) == seq!["base_url"@, "console"@],
    {
        let mut reserved: Vec<String> = Vec::new();
        reserved.push("base_url".to_owned());
        reserved.push("console".to_owned());
        assert(string_views(reserved@) =~= seq!["base_url"@, "console"@]);
        IpxeScriptTemplate {
            name: name.to_owned(),
            description: description.to_owned(),
            template: script.to_owned(),
            reserved_params: reserved,
            required_params: required,
        }
    }

    /// A renderer with the built-in templates `qcow-image` and
    /// `ubuntu-autoinstall`.
    pub fn new() -> (r: Self)
        ensures
            r.has_builtin_templates(),
    {
        let mut qcow_required: Vec<String> = Vec::new();
        qcow_required.push("image_url".to_owned());
        assert(string_views(qcow_required@) =~= seq!["image_url"@]);
        let qcow = Self::builtin(
            "qcow-image",
            "Template for booting qcow images using qcow-imager.efi",
            QCOW_IMAGE_SCRIPT,
            qcow_required,
        );
        let mut ubuntu_required: Vec<String> = Vec::new();
        ubuntu_required.push("kernel".to_owned());
        ubuntu_required.push("initrd".to_owned());
        ubuntu_required.push("install_iso".to_owned());
        assert(string_views(ubuntu_required@) =~= seq!["kernel"@, "initrd"@, "install_iso"@]);
        let ubuntu = Self::builtin(
            "ubuntu-autoinstall",
            "Template for Ubuntu autoinstall",
            UBUNTU_AUTOINSTALL_SCRIPT,
            ubuntu_required,
        );
        let mut templates: Vec<(String, IpxeScriptTemplate)> = Vec::new();
        templates.push(("qcow-image".to_owned(), qcow));
        templates.push(("ubuntu-autoinstall".to_owned(), ubuntu));
        proof {
            reveal_strlit("qcow-image");
            reveal_strlit("ubuntu-autoinstall");
            assert("qcow-image"@ != "ubuntu-autoinstall"@) by {
                assert("qcow-image"@[0] != "ubuntu-autoinstall"@[0]);
            }
            assert(keys_of(templates@) =~= seq!["qcow-image"@, "ubuntu-autoinstall"@]);
        }
        proof {
            lemma_keys_lookup(templates@);
            let e = templates@;
            assert(e.drop_last().last().0@ == "qcow-image"@);
            assert(crate::entries::key_index(e, "ubuntu-autoinstall"@) == 1);
            assert(crate::entries::key_index(e.drop_last(), "qcow-image"@) == 0);
            assert(crate::entries::key_index(e, "qcow-image"@) == 0);
            assert(lookup(e, "qcow-image"@) == Some(qcow));
            assert(lookup(e, "ubuntu-autoinstall"@) == Some(ubuntu));
            assert(builtin_template(qcow, "qcow-image"@));
            assert(builtin_template(ubuntu, "ubuntu-autoinstall"@));
            assert forall|n: Seq<char>| #[trigger] lookup(e, n) is Some <==> (n == "qcow-image"@ || n
                == "ubuntu-autoinstall"@) by {
                assert(keys_of(e).contains(n) <==> (n == "qcow-image"@ || n == "ubuntu-autoinstall"@)) by {
                    if n == "qcow-image"@ {
                        assert(keys_of(e)[0] == n);
                    }
                    if n == "ubuntu-autoinstall"@ {
                        assert(keys_of(e)[1] == n);
                    }
                }
            }
        }
        let r = DefaultIpxeOsRenderer { templates };
        proof {
            assert(r.template_names()[0] == "qcow-image"@);
            assert(r.template_names()[1] == "ubuntu-autoinstall"@);
        }
        r
    }

    /// A renderer with the given templates, each under the name it is paired
    /// with; where a name occurs more than once, the last template paired
    /// with it is kept.
    pub fn with_templates(templates: Vec<(String, IpxeScriptTemplate)>) -> (r: Self)
        ensures
            r.template_names() == keys_of(stored_entries(templates@)),
            forall|n: Seq<char>| #[trigger] r.template_named(n) == lookup(stored_entries(templates@), n),
    {
        let ghost input = templates@;
        let mut rest = templates;
        let mut stored: Vec<(String, IpxeScriptTemplate)> = Vec::new();
        let mut i: usize = 0;
        let n = rest.len();
        assert(input.take(0) =~= Seq::<(String, IpxeScriptTemplate)>::empty());
        assert(input.skip(0) == input);
        while rest.len() > 0
            invariant
                n == input.len(),
                i <= n,
                rest.len() == n - i,
                rest@ == input.skip(i as int),
                stored@ == stored_entries(input.take(i as int)),
                distinct_keys(stored@),
            decreases rest.len(),
        {
            let (k, t) = rest.remove(0);
            assert(input.take(i + 1).drop_last() == input.take(i as int));
            assert(input.take(i + 1).last() == (k, t));
            proof {
                lemma_upsert_distinct(stored@, k, t);
            }
            upsert_entry(&mut stored, k, t);
            assert(input.skip(i as int).remove(0) == input.skip(i + 1));
            i = i + 1;
        }
        assert(input.take(i as int) == input);
        DefaultIpxeOsRenderer { templates: stored }
    }

    /// The template used to render `os`, or the error that it has none.
    fn template_for(&self, os: &IpxeOs) -> (r: std::result::Result<&IpxeScriptTemplate, IpxeOsError>)
        ensures
            match r {
                Ok(t) => self.template_named(os.ipxe_template_name@) == Some(*t),
                Err(e) => self.template_named(os.ipxe_template_name@) is None
                    && e@ == IpxeOsErrorView::TemplateNotFound(os.ipxe_template_name@),
            },
    {
        match self.get_template(os.ipxe_template_name.as_str()) {
            Some(t) => Ok(t),
            None => Err(IpxeOsError::TemplateNotFound(os.ipxe_template_name.clone())),
        }
    }
}

/// The entries stored from `input`: each pair in turn sets its name to its
/// template.
pub open spec fn stored_entries(input: Seq<(String, IpxeScriptTemplate)>) -> Seq<(String, IpxeScriptTemplate)>
    decreases input.len(),
{
    if input.len() == 0 {
        Seq::empty()
    } else {
        upsert(stored_entries(input.drop_last()), input.last().0, input.last().1)
    }
}

/// `t` is the built-in template of that name, as `new` makes it.
pub open spec fn builtin_template(t: IpxeScriptTemplate, name: Seq<char>) -> bool {
    &&& t.name@ == name
    &&& t.template@ == builtin_script(name)
    &&& string_views(t.reserved_params@) == seq!["base_url"@, "console"@]
    &&& if name == "qcow-image"@ {
        &&& t.description@ == "Template for booting qcow images using qcow-imager.efi"@
        &&& string_views(t.required_params@) == seq!["image_url"@]
    } else {
        &&& t.description@ == "Template for Ubuntu autoinstall"@
        &&& string_views(t.required_params@) == seq!["kernel"@, "initrd"@, "install_iso"@]
    }
}

impl Default for DefaultIpxeOsRenderer {
    fn default() -> (r: Self)
        ensures
            r.has_builtin_templates(),
    {
        Self::new()
    }
}



/// The named values a render fills placeholders with, in the order the
/// names first arrive: the definition's parameters, then `reserved`.
pub open spec fn render_values(os: IpxeOs, reserved: Seq<IpxeOsParameter>) -> Seq<(String, String)> {
    insert_parameters(insert_parameters(Seq::empty(), os.parameters@), reserved)
}

/// The named values an artifact-substituting render fills placeholders
/// with: the definition's parameters, then its artifacts' URLs, then
/// `reserved`.
pub open spec fn artifact_render_values(os: IpxeOs, reserved: Seq<IpxeOsParameter>) -> Seq<(String, String)> {
    insert_parameters(
        insert_artifact_urls(insert_parameters(Seq::empty(), os.parameters@), os.artifacts@),
        reserved,
    )
}

/// The script rendered from template `t` for `os`: placeholders are filled
/// from the definition's parameters and then from `reserved` (which win over
/// parameters of the same name), `{{extra}}` receives the parameters the
/// template does not name, then spaces are squeezed and line ends trimmed.
pub open spec fn rendered_script(t: IpxeScriptTemplate, os: IpxeOs, reserved: Seq<IpxeOsParameter>) -> Seq<char> {
    let values = render_values(os, reserved);
    finish_script(
        substitute_all(t.template@, values),
        extra_text(os.parameters@, template_names_used(t)),
    )
}

/// As `rendered_script`, but artifacts also fill the placeholders of their
/// names, with their local URL where they have one (after the parameters,
/// before `reserved`), and `{{extra}}` leaves out parameters named like an
/// artifact.
pub open spec fn rendered_script_with_artifacts(t: IpxeScriptTemplate, os: IpxeOs, reserved: Seq<IpxeOsParameter>) -> Seq<char> {
    let values = artifact_render_values(os, reserved);
    finish_script(
        substitute_all(t.template@, values),
        extra_text(os.parameters@, template_names_used(t) + artifact_names(os.artifacts@)),
    )
}

/// An artifact gets a local URL made for it: it may be cached, has no local
/// URL yet, and its URL holds no `${` variable.
pub open spec fn gets_local_url(a: IpxeOsArtifact) -> bool {
    &&& a.cache_strategy != ArtifactCacheStrategy::RemoteOnly
    &&& a.local_url is None
    &&& !contains_seq(a.url@, seq!['$', '{'])
}

/// The local URL made for an artifact: `${base_url}/artifacts/<name>`,
/// followed by `-<sha>` when it has a checksum.
pub open spec fn made_local_url(a: IpxeOsArtifact) -> Seq<char> {
    "${base_url}/artifacts/"@ + a.name@ + match a.sha {
        Some(sha) => seq!['-'] + sha@,
        None => Seq::empty(),
    }
}

/// `b` is `a` with its local URL made where `gets_local_url` says so.
pub open spec fn with_local_url(a: IpxeOsArtifact, b: IpxeOsArtifact) -> bool {
    &&& b.name == a.name
    &&& b.url == a.url
    &&& b.sha == a.sha
    &&& b.auth_type == a.auth_type
    &&& b.auth_token == a.auth_token
    &&& b.cache_strategy == a.cache_strategy
    &&& if gets_local_url(a) {
        b.local_url matches Some(u) && u@ == made_local_url(a)
    } else {
        b.local_url == a.local_url
    }
}

/// The names a template fills itself: its required names, then its reserved
/// names.
fn used_names(t: &IpxeScriptTemplate) -> (r: Vec<String>)
    ensures
        string_views(r@) == template_names_used(*t),
{
    let mut r = copy_strings(&t.required_params);
    let mut more = copy_strings(&t.reserved_params);
    r.append(&mut more);
    assert(string_views(r@) =~= template_names_used(*t));
    r
}

/// The names an artifact-substituting render fills itself.
fn used_names_with_artifacts(t: &IpxeScriptTemplate, arts: &Vec<IpxeOsArtifact>) -> (r: Vec<String>)
    ensures
        string_views(r@) == template_names_used(*t) + artifact_names(arts@),
{
    let mut r = used_names(t);
    let ghost start = r@;
    let mut i: usize = 0;
    while i < arts.len()
        invariant
            i <= arts.len(),
            string_views(start) == template_names_used(*t),
            string_views(r@) == string_views(start) + artifact_names(arts@.take(i as int)),
        decreases arts.len() - i,
    {
        let ghost before = r@;
        r.push(arts[i].name.clone());
        assert(artifact_names(arts@.take(i + 1)) =~= artifact_names(arts@.take(i as int)).push(
            arts@[i as int].name@,
        ));
        assert(string_views(r@) =~= string_views(before).push(arts@[i as int].name@));
        i = i + 1;
    }
    assert(arts@.take(arts.len() as int) == arts@);
    r
}

impl IpxeOsRenderer for DefaultIpxeOsRenderer {
    fn render(&self, ipxeos: &IpxeOs, reserved_params: &[IpxeOsParameter]) -> (r: std::result::Result<
        String,
        IpxeOsError,
    >)
        ensures
            match validation_error(self.template_named(ipxeos.ipxe_template_name@), *ipxeos) {
                Some(e) => r matches Err(x) && x@ == e,
                None => r matches Ok(s) && s@ == rendered_script(
                    self.template_named(ipxeos.ipxe_template_name@)->0,
                    *ipxeos,
                    reserved_params@,
                ),
            },
    {
        match self.validate(ipxeos) {
            Ok(()) => {},
            Err(e) => {
                return Err(e);
            },
        }
        let template = match self.template_for(ipxeos) {
            Ok(t) => t,
            Err(e) => {
                return Err(e);
            },
        };
        let mut values: Vec<(String, String)> = Vec::new();
        insert_parameter_values(&mut values, ipxeos.parameters.as_slice());
        insert_parameter_values(&mut values, reserved_params);
        let text = chars_of(template.template.as_str());
        let substituted = substitute(text, &values);
        let used = used_names(template);
        let out = finish(substituted, &ipxeos.parameters, &used);
        Ok(string_of(&out))
    }

    fn render_with_artifact_substitution(
        &self,
        ipxeos: &IpxeOs,
        reserved_params: &[IpxeOsParameter],
    ) -> (r: std::result::Result<String, IpxeOsError>)
        ensures
            match validation_error(self.template_named(ipxeos.ipxe_template_name@), *ipxeos) {
                Some(e) => r matches Err(x) && x@ == e,
                None => r matches Ok(s) && s@ == rendered_script_with_artifacts(
                    self.template_named(ipxeos.ipxe_template_name@)->0,
                    *ipxeos,
                    reserved_params@,
                ),
            },
    {
        match self.validate(ipxeos) {
            Ok(()) => {},
            Err(e) => {
                return Err(e);
            },
        }
        let template = match self.template_for(ipxeos) {
            Ok(t) => t,
            Err(e) => {
                return Err(e);
            },
        };
        let mut values: Vec<(String, String)> = Vec::new();
        insert_parameter_values(&mut values, ipxeos.parameters.as_slice());
        insert_artifact_values(&mut values, &ipxeos.artifacts);
        insert_parameter_values(&mut values, reserved_params);
        let text = chars_of(template.template.as_str());
        let substituted = substitute(text, &values);
        let used = used_names_with_artifacts(template, &ipxeos.artifacts);
        let out = finish(substituted, &ipxeos.parameters, &used);
        Ok(string_of(&out))
    }

    fn get_template(&self, name: &str) -> (r: Option<&IpxeScriptTemplate>)
        ensures
            match r {
                Some(t) => self.template_named(name@) == Some(*t),
                None => self.template_named(name@) is None,
            },
    {
        let key = name.to_owned();
        match find_key(&self.templates, &key) {
            Some(i) => {
                proof {
                    lemma_key_index_bounds(self.templates@, key@);
                }
                Some(&self.templates[i].1)
            },
            None => None,
        }
    }

    fn list_templates(&self) -> (r: Vec<String>)
        ensures
            string_views(r@) == self.template_names(),
            string_views(r@).no_duplicates(),
            forall|n: Seq<char>| #[trigger] self.template_named(n) is Some <==> string_views(r@).contains(n),
    {
        proof {
            use_type_invariant(self);
            lemma_keys_lookup(self.templates@);
        }
        let mut r: Vec<String> = Vec::new();
        let mut i: usize = 0;
        while i < self.templates.len()
            invariant
                i <= self.templates.len(),
                string_views(r@) == keys_of(self.templates@.take(i as int)),
            decreases self.templates.len() - i,
        {
            let ghost before = r@;
            r.push(self.templates[i].0.clone());
            assert(keys_of(self.templates@.take(i + 1)) =~= keys_of(self.templates@.take(i as int)).push(
                self.templates@[i as int].0@,
            ));
            assert(string_views(r@) =~= string_views(before).push(self.templates@[i as int].0@));
            i = i + 1;
        }
        assert(self.templates@.take(self.templates.len() as int) == self.templates@);
        r
    }

    fn validate(&self, ipxeos: &IpxeOs) -> (r: std::result::Result<(), IpxeOsError>)
        ensures
            match validation_error(self.template_named(ipxeos.ipxe_template_name@), *ipxeos) {
                Some(e) => r matches Err(x) && x@ == e,
                None => r is Ok,
            },
    {
        let template = match self.template_for(ipxeos) {
            Ok(t) => t,
            Err(e) => {
                return Err(e);
            },
        };
        if let Some(n) = find_reserved_parameter(&ipxeos.parameters, &template.reserved_params) {
            return Err(IpxeOsError::ReservedParameterFound(n.clone()));
        }
        if let Some(n) = find_reserved_artifact(&ipxeos.artifacts, &template.reserved_params) {
            return Err(IpxeOsError::ReservedParameterFound(n.clone()));
        }
        if let Some(n) = find_missing(&template.required_params, &ipxeos.parameters, &ipxeos.artifacts) {
            return Err(IpxeOsError::RequiredParameterMissing(n.clone()));
        }
        let used = used_names(template);
        let marker: Vec<char> = vec!['{', '{', 'e', 'x', 't', 'r', 'a', '}', '}'];
        assert(marker@ =~= crate::script::extra_marker());
        if find_extra_parameter(&ipxeos.parameters, &used) && !contains(
            &chars_of(template.template.as_str()),
            &marker,
        ) {
            return Err(IpxeOsError::ExtraParametersNotSupported);
        }
        let computed = self.hash(ipxeos);
        if !computed.eq(&ipxeos.hash) {
            return Err(IpxeOsError::HashMismatch { expected: ipxeos.hash.clone(), actual: computed });
        }
        Ok(())
    }

    fn hash(&self, ipxeos: &IpxeOs) -> (h: String)
        ensures
            h@ == definition_hash(*ipxeos),
            h@.len() == 64,
            forall|i: int| 0 <= i < h@.len() ==> is_lower_hex_digit(#[trigger] h@[i]),
    {
        compute_definition_hash(ipxeos)
    }

    fn fabricate_local_urls(&self, ipxeos: &IpxeOs) -> (r: IpxeOs)
        ensures
            r.name == ipxeos.name,
            r.description == ipxeos.description,
            r.hash == ipxeos.hash,
            r.tenant_id == ipxeos.tenant_id,
            r.ipxe_template_name == ipxeos.ipxe_template_name,
            r.parameters@ == ipxeos.parameters@,
            r.artifacts.len() == ipxeos.artifacts.len(),
            forall|i: int| 0 <= i < r.artifacts.len() ==> with_local_url(
                #[trigger] ipxeos.artifacts@[i],
                r.artifacts@[i],
            ),
    {
        let mut artifacts: Vec<IpxeOsArtifact> = Vec::new();
        let var_start: Vec<char> = vec!['$', '{'];
        let mut i: usize = 0;
        while i < ipxeos.artifacts.len()
            invariant
                i <= ipxeos.artifacts.len(),
                var_start@ == seq!['$', '{'],
                artifacts.len() == i,
                forall|k: int| 0 <= k < i ==> with_local_url(
                    #[trigger] ipxeos.artifacts@[k],
                    artifacts@[k],
                ),
            decreases ipxeos.artifacts.len() - i,
        {
            let a = &ipxeos.artifacts[i];
            let remote_only = match a.cache_strategy {
                ArtifactCacheStrategy::RemoteOnly => true,
                _ => false,
            };
            let has_variable = contains(&chars_of(a.url.as_str()), &var_start);
            let local_url = if !remote_only && a.local_url.is_none() && !has_variable {
                let mut u = "${base_url}/artifacts/".to_owned();
                u.append(a.name.as_str());
                match &a.sha {
                    Some(sha) => {
                        u.append("-");
                        u.append(sha.as_str());
                        proof {
                            reveal_strlit("-");
                        }
                        assert(u@ =~= made_local_url(*a));
                    },
                    None => {
                        assert(u@ =~= made_local_url(*a));
                    },
                }
                Some(u)
            } else {
                copy_opt_string(&a.local_url)
            };
            let b = IpxeOsArtifact {
                name: a.name.clone(),
                url: a.url.clone(),
                sha: copy_opt_string(&a.sha),
                auth_type: copy_opt_string(&a.auth_type),
                auth_token: copy_opt_string(&a.auth_token),
                cache_strategy: a.cache_strategy.copy(),
                local_url,
            };
            artifacts.push(b);
            i = i + 1;
        }
        IpxeOs {
            name: ipxeos.name.clone(),
            description: copy_opt_string(&ipxeos.description),
            hash: ipxeos.hash.clone(),
            tenant_id: copy_opt_string(&ipxeos.tenant_id),
            ipxe_template_name: ipxeos.ipxe_template_name.clone(),
            parameters: copy_parameters(&ipxeos.parameters),
            artifacts,
        }
    }
}

} // verus!
