//! The text that the administration tool shows for operating-system
//! definitions and iPXE templates: detail lines and table rows.
use vstd::prelude::*;
use crate::model::{string_views, IpxeOsArtifact, IpxeOsParameter};
use crate::text::join_with;

verus! {

/// An operating-system definition as the service reports it.
pub struct OperatingSystemDefinition {
    pub id: String,
    pub name: String,
    pub org: String,
    pub type_: String,
    pub status: String,
    pub is_active: bool,
    pub allow_override: bool,
    pub phone_home_enabled: bool,
    pub created: String,
    pub updated: String,
    pub description: Option<String>,
    pub user_data: Option<String>,
    pub ipxe_script: Option<String>,
    pub ipxe_template_name: Option<String>,
    pub os_image_id: Option<String>,
    pub ipxe_parameters: Vec<IpxeOsParameter>,
    pub ipxe_artifacts: Vec<IpxeOsArtifact>,
}

/// An iPXE template as the service reports it.
pub struct IpxeTemplateInfo {
    pub name: String,
    pub description: String,
    pub template: String,
    pub required_params: Vec<String>,
    pub reserved_params: Vec<String>,
    pub required_artifacts: Vec<String>,
}

/// `true` or `false`.
pub open spec fn bool_text(b: bool) -> Seq<char> {
    if b {
        "true"@
    } else {
        "false"@
    }
}

/// `yes` or `no`.
pub open spec fn yes_no(b: bool) -> Seq<char> {
    if b {
        "yes"@
    } else {
        "no"@
    }
}

/// One line per parameter: two spaces, then `name=value`.
pub open spec fn parameter_lines(ps: Seq<IpxeOsParameter>) -> Seq<Seq<char>>
    decreases ps.len(),
{
    if ps.len() == 0 {
        Seq::empty()
    } else {
        parameter_lines(ps.drop_last()).push("  "@ + ps.last().name@ + "="@ + ps.last().value@)
    }
}

/// One line per artifact: two spaces, then `name -> url`.
pub open spec fn artifact_lines(arts: Seq<IpxeOsArtifact>) -> Seq<Seq<char>>
    decreases arts.len(),
{
    if arts.len() == 0 {
        Seq::empty()
    } else {
        artifact_lines(arts.drop_last()).push("  "@ + arts.last().name@ + " -> "@ + arts.last().url@)
    }
}

/// `line` when `o` holds a value, made from it; else nothing.
pub open spec fn optional_line(label: Seq<char>, o: Option<String>) -> Seq<Seq<char>> {
    match o {
        Some(v) => seq![label + v@],
        None => Seq::empty(),
    }
}

/// The detail lines shown for a definition.
pub open spec fn definition_lines(os: OperatingSystemDefinition) -> Seq<Seq<char>> {
    seq![
        "ID:                  "@ + os.id@,
        "Name:                "@ + os.name@,
        "Org:                 "@ + os.org@,
        "Type:                "@ + os.type_@,
        "Status:              "@ + os.status@,
        "Active:              "@ + bool_text(os.is_active),
        "Allow Override:      "@ + bool_text(os.allow_override),
        "Phone Home Enabled:  "@ + bool_text(os.phone_home_enabled),
        "Created:             "@ + os.created@,
        "Updated:             "@ + os.updated@,
    ] + optional_line("Description:         "@, os.description) + optional_line(
        "User Data:           "@,
        os.user_data,
    ) + match os.ipxe_script {
        Some(s) => seq!["\niPXE Script:\n---\n"@ + s@ + "\n---"@],
        None => Seq::empty(),
    } + optional_line("iPXE Template:       "@, os.ipxe_template_name) + optional_line(
        "OS Image ID:         "@,
        os.os_image_id,
    ) + if os.ipxe_parameters.len() == 0 {
        Seq::empty()
    } else {
        seq!["\niPXE Parameters:"@] + parameter_lines(os.ipxe_parameters@)
    } + if os.ipxe_artifacts.len() == 0 {
        Seq::empty()
    } else {
        seq!["\niPXE Artifacts:"@] + artifact_lines(os.ipxe_artifacts@)
    }
}

/// The cells of a definition's row in the definition table: identifier,
/// name, organisation, kind, status and whether it is active.
pub open spec fn definition_row(os: OperatingSystemDefinition) -> Seq<Seq<char>> {
    seq![os.id@, os.name@, os.org@, os.type_@, os.status@, yes_no(os.is_active)]
}

/// `line` made from the joined names, when there are any.
pub open spec fn names_line(label: Seq<char>, names: Seq<String>) -> Seq<Seq<char>> {
    if names.len() == 0 {
        Seq::empty()
    } else {
        seq![label + join_with(string_views(names), ", "@)]
    }
}

/// The detail lines shown for a template.
pub open spec fn template_lines(t: IpxeTemplateInfo) -> Seq<Seq<char>> {
    seq!["Name:        "@ + t.name@, "Description: "@ + t.description@] + names_line(
        "Required params:    "@,
        t.required_params@,
    ) + names_line("Reserved params:    "@, t.reserved_params@) + names_line(
        "Required artifacts: "@,
        t.required_artifacts@,
    ) + seq!["\nTemplate:\n---\n"@ + t.template@ + "\n---"@]
}

/// The cells of a template's row in the template table: name, description,
/// required parameters and required artifacts.
pub open spec fn template_row(t: IpxeTemplateInfo) -> Seq<Seq<char>> {
    seq![
        t.name@,
        t.description@,
        join_with(string_views(t.required_params@), ", "@),
        join_with(string_views(t.required_artifacts@), ", "@),
    ]
}

fn labelled(label: &str, value: &str) -> (s: String)
    ensures
        s@ == label@ + value@,
{
    let mut s = label.to_owned();
    s.append(value);
    s
}

fn bool_string(b: bool) -> (s: String)
    ensures
        s@ == bool_text(b),
{
    if b {
        "true".to_owned()
    } else {
        "false".to_owned()
    }
}

fn push_optional(lines: &mut Vec<String>, label: &str, o: &Option<String>)
    ensures
        string_views(final(lines)@) == string_views(old(lines)@) + optional_line(label@, *o),
{
    let ghost before = lines@;
    match o {
        Some(v) => {
            lines.push(labelled(label, v.as_str()));
            assert(string_views(lines@) =~= string_views(before) + optional_line(label@, *o));
        },
        None => {
            assert(string_views(lines@) =~= string_views(before) + optional_line(label@, *o));
        },
    }
}

/// The strings joined with `sep` between each two neighbours.
pub fn join_strings(v: &Vec<String>, sep: &str) -> (r: String)
    ensures
        r@ == join_with(string_views(v@), sep@),
{
    let mut r = String::new();
    let mut i: usize = 0;
    assert(string_views(v@).take(0) =~= Seq::<Seq<char>>::empty());
    while i < v.len()
        invariant
            i <= v.len(),
            r@ == join_with(string_views(v@).take(i as int), sep@),
        decreases v.len() - i,
    {
        let ghost before = r@;
        let ghost vs = string_views(v@);
        if i != 0 {
            r.append(sep);
        }
        r.append(v[i].as_str());
        assert(vs.take(i + 1).drop_last() =~= vs.take(i as int));
        assert(vs.take(i + 1).last() == v@[i as int]@);
        if i == 0 {
            assert(vs.take(1).len() == 1);
            assert(r@ =~= vs.take(1)[0]);
        } else {
            assert(r@ =~= before + sep@ + v@[i as int]@);
        }
        i = i + 1;
    }
    assert(string_views(v@).take(v.len() as int) =~= string_views(v@));
    r
}

/// The detail lines shown for a definition.
pub fn describe_definition(os: &OperatingSystemDefinition) -> (lines: Vec<String>)
    ensures
        string_views(lines@) == definition_lines(*os),
{
    let mut lines: Vec<String> = Vec::new();
    lines.push(labelled("ID:                  ", os.id.as_str()));
    lines.push(labelled("Name:                ", os.name.as_str()));
    lines.push(labelled("Org:                 ", os.org.as_str()));
    lines.push(labelled("Type:                ", os.type_.as_str()));
    lines.push(labelled("Status:              ", os.status.as_str()));
    lines.push(labelled("Active:              ", bool_string(os.is_active).as_str()));
    lines.push(labelled("Allow Override:      ", bool_string(os.allow_override).as_str()));
    lines.push(labelled("Phone Home Enabled:  ", bool_string(os.phone_home_enabled).as_str()));
    lines.push(labelled("Created:             ", os.created.as_str()));
    lines.push(labelled("Updated:             ", os.updated.as_str()));
    let ghost head = string_views(lines@);
    assert(head =~= seq![
        "ID:                  "@ + os.id@,
        "Name:                "@ + os.name@,
        "Org:                 "@ + os.org@,
        "Type:                "@ + os.type_@,
        "Status:              "@ + os.status@,
        "Active:              "@ + bool_text(os.is_active),
        "Allow Override:      "@ + bool_text(os.allow_override),
        "Phone Home Enabled:  "@ + bool_text(os.phone_home_enabled),
        "Created:             "@ + os.created@,
        "Updated:             "@ + os.updated@,
    ]);
    push_optional(&mut lines, "Description:         ", &os.description);
    push_optional(&mut lines, "User Data:           ", &os.user_data);
    let ghost before_script = string_views(lines@);
    match &os.ipxe_script {
        Some(s) => {
            let mut line = "\niPXE Script:\n---\n".to_owned();
            line.append(s.as_str());
            line.append("\n---");
            lines.push(line);
        },
        None => {},
    }
    let ghost after_script = string_views(lines@);
    assert(after_script =~= before_script + match os.ipxe_script {
        Some(s) => seq!["\niPXE Script:\n---\n"@ + s@ + "\n---"@],
        None => Seq::<Seq<char>>::empty(),
    });
    push_optional(&mut lines, "iPXE Template:       ", &os.ipxe_template_name);
    push_optional(&mut lines, "OS Image ID:         ", &os.os_image_id);
    let ghost before_params = string_views(lines@);
    assert(before_script =~= head + optional_line("Description:         "@, os.description)
        + optional_line("User Data:           "@, os.user_data));
    if os.ipxe_parameters.len() != 0 {
        lines.push("\niPXE Parameters:".to_owned());
        let ghost start = string_views(lines@);
        let mut i: usize = 0;
        while i < os.ipxe_parameters.len()
            invariant
                i <= os.ipxe_parameters.len(),
                string_views(lines@) == start + parameter_lines(os.ipxe_parameters@.take(i as int)),
            decreases os.ipxe_parameters.len() - i,
        {
            let p = &os.ipxe_parameters[i];
            let mut line = "  ".to_owned();
            line.append(p.name.as_str());
            line.append("=");
            line.append(p.value.as_str());
            let ghost prev = string_views(lines@);
            lines.push(line);
            assert(string_views(lines@) =~= prev.push(line@));
            assert(os.ipxe_parameters@.take(i + 1).drop_last() == os.ipxe_parameters@.take(i as int));
            i = i + 1;
        }
        assert(os.ipxe_parameters@.take(os.ipxe_parameters.len() as int) == os.ipxe_parameters@);
    }
    let ghost before_arts = string_views(lines@);
    assert(before_arts =~= before_params + if os.ipxe_parameters.len() == 0 {
        Seq::<Seq<char>>::empty()
    } else {
        seq!["\niPXE Parameters:"@] + parameter_lines(os.ipxe_parameters@)
    });
    if os.ipxe_artifacts.len() != 0 {
        lines.push("\niPXE Artifacts:".to_owned());
        let ghost start = string_views(lines@);
        let mut i: usize = 0;
        while i < os.ipxe_artifacts.len()
            invariant
                i <= os.ipxe_artifacts.len(),
                string_views(lines@) == start + artifact_lines(os.ipxe_artifacts@.take(i as int)),
            decreases os.ipxe_artifacts.len() - i,
        {
            let a = &os.ipxe_artifacts[i];
            let mut line = "  ".to_owned();
            line.append(a.name.as_str());
            line.append(" -> ");
            line.append(a.url.as_str());
            let ghost prev = string_views(lines@);
            lines.push(line);
            assert(string_views(lines@) =~= prev.push(line@));
            assert(os.ipxe_artifacts@.take(i + 1).drop_last() == os.ipxe_artifacts@.take(i as int));
            i = i + 1;
        }
        assert(os.ipxe_artifacts@.take(os.ipxe_artifacts.len() as int) == os.ipxe_artifacts@);
    }
    assert(string_views(lines@) =~= before_arts + if os.ipxe_artifacts.len() == 0 {
        Seq::<Seq<char>>::empty()
    } else {
        seq!["\niPXE Artifacts:"@] + artifact_lines(os.ipxe_artifacts@)
    });
    assert(before_params =~= after_script + optional_line("iPXE Template:       "@, os.ipxe_template_name)
        + optional_line("OS Image ID:         "@, os.os_image_id));
    assert(string_views(lines@) =~= definition_lines(*os));
    lines
}

/// The cells of a definition's row in the definition table.
pub fn definition_table_row(os: &OperatingSystemDefinition) -> (row: Vec<String>)
    ensures
        string_views(row@) == definition_row(*os),
{
    let mut row: Vec<String> = Vec::new();
    row.push(os.id.clone());
    row.push(os.name.clone());
    row.push(os.org.clone());
    row.push(os.type_.clone());
    row.push(os.status.clone());
    row.push(if os.is_active {
        "yes".to_owned()
    } else {
        "no".to_owned()
    });
    assert(string_views(row@) =~= definition_row(*os));
    row
}

fn push_names(lines: &mut Vec<String>, label: &str, names: &Vec<String>)
    ensures
        string_views(final(lines)@) == string_views(old(lines)@) + names_line(label@, names@),
{
    let ghost before = lines@;
    if names.len() != 0 {
        let joined = join_strings(names, ", ");
        lines.push(labelled(label, joined.as_str()));
    }
    assert(string_views(lines@) =~= string_views(before) + names_line(label@, names@));
}

/// The detail lines shown for a template.
pub fn describe_template(t: &IpxeTemplateInfo) -> (lines: Vec<String>)
    ensures
        string_views(lines@) == template_lines(*t),
{
    let mut lines: Vec<String> = Vec::new();
    lines.push(labelled("Name:        ", t.name.as_str()));
    lines.push(labelled("Description: ", t.description.as_str()));
    push_names(&mut lines, "Required params:    ", &t.required_params);
    push_names(&mut lines, "Reserved params:    ", &t.reserved_params);
    push_names(&mut lines, "Required artifacts: ", &t.required_artifacts);
    let mut last = "\nTemplate:\n---\n".to_owned();
    last.append(t.template.as_str());
    last.append("\n---");
    let ghost before = string_views(lines@);
    lines.push(last);
    assert(string_views(lines@) =~= before.push(last@));
    assert(string_views(lines@) =~= template_lines(*t));
    lines
}

/// The cells of a template's row in the template table.
pub fn template_table_row(t: &IpxeTemplateInfo) -> (row: Vec<String>)
    ensures
        string_views(row@) == template_row(*t),
{
    let mut row: Vec<String> = Vec::new();
    row.push(t.name.clone());
    row.push(t.description.clone());
    row.push(join_strings(&t.required_params, ", "));
    row.push(join_strings(&t.required_artifacts, ", "));
    assert(string_views(row@) =~= template_row(*t));
    row
}


/// The message shown when the service has no definition with that id.
pub fn operating_system_not_found_message(id: &str) -> (s: String)
    ensures
        s@ == "Operating system not found: "@ + id@,
{
    labelled("Operating system not found: ", id)
}

/// The message shown when the service has no template of that name.
pub fn template_not_found_message(name: &str) -> (s: String)
    ensures
        s@ == "iPXE template not found: "@ + name@,
{
    labelled("iPXE template not found: ", name)
}

} // verus!
