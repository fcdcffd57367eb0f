//! The checks an iPXE OS definition must pass against its template before it
//! is rendered, in the order they are made.
use vstd::prelude::*;
use crate::model::{string_views, IpxeOs, IpxeOsArtifact, IpxeOsErrorView, IpxeOsParameter, IpxeScriptTemplate};
use crate::digest::definition_hash;
use crate::script::extra_marker;
use crate::text::contains_seq;
use crate::script::contains_name;

verus! {

/// The name of the first parameter whose name is reserved.
pub open spec fn first_reserved_parameter(ps: Seq<IpxeOsParameter>, reserved: Seq<Seq<char>>) -> Option<Seq<char>>
    decreases ps.len(),
{
    if ps.len() == 0 {
        None
    } else if reserved.contains(ps[0].name@) {
        Some(ps[0].name@)
    } else {
        first_reserved_parameter(ps.drop_first(), reserved)
    }
}

/// The name of the first artifact whose name is reserved.
pub open spec fn first_reserved_artifact(arts: Seq<IpxeOsArtifact>, reserved: Seq<Seq<char>>) -> Option<Seq<char>>
    decreases arts.len(),
{
    if arts.len() == 0 {
        None
    } else if reserved.contains(arts[0].name@) {
        Some(arts[0].name@)
    } else {
        first_reserved_artifact(arts.drop_first(), reserved)
    }
}

/// `name` is given: by a parameter of that name with a nonempty value, or by
/// an artifact of that name.
pub open spec fn is_provided(name: Seq<char>, ps: Seq<IpxeOsParameter>, arts: Seq<IpxeOsArtifact>) -> bool {
    ||| exists|i: int| 0 <= i < ps.len() && ps[i].name@ == name && ps[i].value@.len() > 0
    ||| exists|i: int| 0 <= i < arts.len() && arts[i].name@ == name
}

/// The first required name that is not provided.
pub open spec fn first_missing(required: Seq<Seq<char>>, ps: Seq<IpxeOsParameter>, arts: Seq<IpxeOsArtifact>) -> Option<Seq<char>>
    decreases required.len(),
{
    if required.len() == 0 {
        None
    } else if !is_provided(required[0], ps, arts) {
        Some(required[0])
    } else {
        first_missing(required.drop_first(), ps, arts)
    }
}

/// Some parameter has a name that the template neither requires nor
/// reserves.
pub open spec fn has_extra_parameter(ps: Seq<IpxeOsParameter>, used: Seq<Seq<char>>) -> bool {
    exists|i: int| 0 <= i < ps.len() && !used.contains(#[trigger] ps[i].name@)
}

/// The names that a template itself fills: the required ones, then the
/// reserved ones.
pub open spec fn template_names_used(t: IpxeScriptTemplate) -> Seq<Seq<char>> {
    string_views(t.required_params@) + string_views(t.reserved_params@)
}

/// The first error that checking `os` against `template` (the template its
/// name selects, if any) gives, or `None` when every check passes.
pub open spec fn validation_error(template: Option<IpxeScriptTemplate>, os: IpxeOs) -> Option<IpxeOsErrorView> {
    match template {
        None => Some(IpxeOsErrorView::TemplateNotFound(os.ipxe_template_name@)),
        Some(t) => {
            let reserved = string_views(t.reserved_params@);
            let required = string_views(t.required_params@);
            if let Some(n) = first_reserved_parameter(os.parameters@, reserved) {
                Some(IpxeOsErrorView::ReservedParameterFound(n))
            } else if let Some(n) = first_reserved_artifact(os.artifacts@, reserved) {
                Some(IpxeOsErrorView::ReservedParameterFound(n))
            } else if let Some(n) = first_missing(required, os.parameters@, os.artifacts@) {
                Some(IpxeOsErrorView::RequiredParameterMissing(n))
            } else if has_extra_parameter(os.parameters@, template_names_used(t))
                && !contains_seq(t.template@, extra_marker()) {
                Some(IpxeOsErrorView::ExtraParametersNotSupported)
            } else if definition_hash(os) != os.hash@ {
                Some(
                    IpxeOsErrorView::HashMismatch {
                        expected: os.hash@,
                        actual: definition_hash(os),
                    },
                )
            } else {
                None
            }
        },
    }
}

/// The name of the first parameter whose name is among `reserved`.
pub fn find_reserved_parameter<'a>(ps: &'a Vec<IpxeOsParameter>, reserved: &Vec<String>) -> (r: Option<&'a String>)
    ensures
        match r {
            Some(n) => first_reserved_parameter(ps@, string_views(reserved@)) == Some(n@),
            None => first_reserved_parameter(ps@, string_views(reserved@)) is None,
        },
{
    let mut i: usize = 0;
    assert(ps@.skip(0) == ps@);
    while i < ps.len()
        invariant
            i <= ps.len(),
            first_reserved_parameter(ps@, string_views(reserved@)) == first_reserved_parameter(
                ps@.skip(i as int),
                string_views(reserved@),
            ),
        decreases ps.len() - i,
    {
        assert(ps@.skip(i as int)[0] == ps@[i as int]);
        if contains_name(reserved, &ps[i].name) {
            return Some(&ps[i].name);
        }
        assert(ps@.skip(i as int).drop_first() == ps@.skip(i + 1));
        i = i + 1;
    }
    None
}

/// The name of the first artifact whose name is among `reserved`.
pub fn find_reserved_artifact<'a>(arts: &'a Vec<IpxeOsArtifact>, reserved: &Vec<String>) -> (r: Option<&'a String>)
    ensures
        match r {
            Some(n) => first_reserved_artifact(arts@, string_views(reserved@)) == Some(n@),
            None => first_reserved_artifact(arts@, string_views(reserved@)) is None,
        },
{
    let mut i: usize = 0;
    assert(arts@.skip(0) == arts@);
    while i < arts.len()
        invariant
            i <= arts.len(),
            first_reserved_artifact(arts@, string_views(reserved@)) == first_reserved_artifact(
                arts@.skip(i as int),
                string_views(reserved@),
            ),
        decreases arts.len() - i,
    {
        assert(arts@.skip(i as int)[0] == arts@[i as int]);
        if contains_name(reserved, &arts[i].name) {
            return Some(&arts[i].name);
        }
        assert(arts@.skip(i as int).drop_first() == arts@.skip(i + 1));
        i = i + 1;
    }
    None
}

/// Whether `name` is provided by the parameters or the artifacts.
pub fn provided(name: &String, ps: &Vec<IpxeOsParameter>, arts: &Vec<IpxeOsArtifact>) -> (b: bool)
    ensures
        b == is_provided(name@, ps@, arts@),
{
    let mut i: usize = 0;
    while i < ps.len()
        invariant
            i <= ps.len(),
            forall|k: int| 0 <= k < i ==> !(ps@[k].name@ == name@ && ps@[k].value@.len() > 0),
        decreases ps.len() - i,
    {
        if ps[i].name.eq(name) && !ps[i].value.as_str().is_empty() {
            return true;
        }
        i = i + 1;
    }
    let mut j: usize = 0;
    while j < arts.len()
        invariant
            j <= arts.len(),
            forall|k: int| 0 <= k < ps.len() ==> !(ps@[k].name@ == name@ && ps@[k].value@.len() > 0),
            forall|k: int| 0 <= k < j ==> arts@[k].name@ != name@,
        decreases arts.len() - j,
    {
        if arts[j].name.eq(name) {
            return true;
        }
        j = j + 1;
    }
    false
}

/// The first required name that is not provided.
pub fn find_missing<'a>(required: &'a Vec<String>, ps: &Vec<IpxeOsParameter>, arts: &Vec<IpxeOsArtifact>) -> (r: Option<&'a String>)
    ensures
        match r {
            Some(n) => first_missing(string_views(required@), ps@, arts@) == Some(n@),
            None => first_missing(string_views(required@), ps@, arts@) is None,
        },
{
    let ghost req = string_views(required@);
    let mut i: usize = 0;
    assert(req.skip(0) == req);
    while i < required.len()
        invariant
            i <= required.len(),
            req == string_views(required@),
            first_missing(req, ps@, arts@) == first_missing(req.skip(i as int), ps@, arts@),
        decreases required.len() - i,
    {
        assert(req.skip(i as int)[0] == required@[i as int]@);
        if !provided(&required[i], ps, arts) {
            return Some(&required[i]);
        }
        assert(req.skip(i as int).drop_first() == req.skip(i + 1));
        i = i + 1;
    }
    assert(req.skip(i as int).len() == 0);
    None
}

/// Whether some parameter's name is not among `used`.
pub fn find_extra_parameter(ps: &Vec<IpxeOsParameter>, used: &Vec<String>) -> (b: bool)
    ensures
        b == has_extra_parameter(ps@, string_views(used@)),
{
    let mut i: usize = 0;
    while i < ps.len()
        invariant
            i <= ps.len(),
            forall|k: int| 0 <= k < i ==> string_views(used@).contains(#[trigger] ps@[k].name@),
        decreases ps.len() - i,
    {
        if !contains_name(used, &ps[i].name) {
            return true;
        }
        i = i + 1;
    }
    false
}

} // verus!
