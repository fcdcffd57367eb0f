//! Properties that pin down, over all inputs, what validation guarantees and
//! in which order it reports, which local URLs are made, what `{{extra}}`
//! receives, which bytes a definition's hash reads, and when a create
//! request is accepted.
use vstd::prelude::*;
use crate::model::{
    ArtifactCacheStrategy, IpxeOs, IpxeOsArtifact, IpxeOsErrorView, IpxeOsParameter, IpxeScriptTemplate,
};
use crate::renderer::{
    artifact_render_values, render_values, rendered_script, rendered_script_with_artifacts,
    with_local_url,
};
use crate::script::{
    artifact_names, extra_items, extra_text, finish_script, insert_artifact_urls, insert_parameters,
    substitute_all,
};
use crate::text::join_with;
use crate::digest::{
    artifacts_bytes, hash_input, name_before, optional_utf8, parameters_bytes, sort_by_name, Named,
};
use crate::laws::lemma_sort_sorted_permutation;
use vstd::utf8::{decode_utf8, encode_utf8, encode_utf8_decode_utf8};
use crate::validation::template_names_used;
use crate::text::{contains_seq, occurs_at};
use crate::validation::{
    first_missing, first_reserved_artifact, first_reserved_parameter, has_extra_parameter,
    is_provided, validation_error,
};
use crate::digest::definition_hash;
use crate::model::string_views;
use crate::operating_system::{create_refusal, uuid_from_text, CreateOperatingSystemRequest, CreateRefusal};

verus! {

// ---------------------------------------------------------------------
// Local URLs
// ---------------------------------------------------------------------

/// An artifact that may be cached (its strategy is unspecified, cache as
/// needed, or local only), that has no local URL yet and whose URL holds no
/// `${`, gets the local URL `${base_url}/artifacts/<name>`, followed by
/// `-<sha>` when it has a checksum; its other fields are kept.
pub proof fn lemma_cacheable_artifact_gets_local_url(a: IpxeOsArtifact, b: IpxeOsArtifact)
    requires
        with_local_url(a, b),
        a.cache_strategy == ArtifactCacheStrategy::Unspecified || a.cache_strategy
            == ArtifactCacheStrategy::CacheAsNeeded || a.cache_strategy
            == ArtifactCacheStrategy::LocalOnly,
        a.local_url is None,
        forall|i: int| 0 <= i <= a.url@.len() - 2 ==> #[trigger] a.url@.subrange(i, i + 2) != seq!['$', '{'],
    ensures
        b.name == a.name,
        b.url == a.url,
        b.sha == a.sha,
        b.auth_type == a.auth_type,
        b.auth_token == a.auth_token,
        b.cache_strategy == a.cache_strategy,
        b.local_url matches Some(u) && u@ == "${base_url}/artifacts/"@ + a.name@ + match a.sha {
            Some(s) => seq!['-'] + s@,
            None => Seq::<char>::empty(),
        },
{
    assert(!contains_seq(a.url@, seq!['$', '{'])) by {
        if contains_seq(a.url@, seq!['$', '{']) {
            let i = choose|i: int| occurs_at(a.url@, seq!['$', '{'], i);
            assert(a.url@.subrange(i, i + 2) == seq!['$', '{']);
        }
    }
}

/// An artifact that is fetched remotely only, or already has a local URL,
/// or whose URL holds `${`, keeps its local URL as it is.
pub proof fn lemma_other_artifacts_keep_local_url(a: IpxeOsArtifact, b: IpxeOsArtifact, i: int)
    requires
        with_local_url(a, b),
        a.cache_strategy == ArtifactCacheStrategy::RemoteOnly || a.local_url is Some || (0 <= i
            < a.url@.len() - 1 && a.url@[i] == '$' && a.url@[i + 1] == '{'),
    ensures
        b == a,
{
    if a.cache_strategy != ArtifactCacheStrategy::RemoteOnly && a.local_url is None {
        assert(occurs_at(a.url@, seq!['$', '{'], i)) by {
            assert(a.url@.subrange(i, i + 2) =~= seq!['$', '{']);
        }
    }
}

// ---------------------------------------------------------------------
// Required names
// ---------------------------------------------------------------------

proof fn lemma_first_missing_none(required: Seq<Seq<char>>, os: IpxeOs)
    ensures
        first_missing(required, os.parameters@, os.artifacts@) is None <==> forall|k: int|
            0 <= k < required.len() ==> is_provided(
                #[trigger] required[k],
                os.parameters@,
                os.artifacts@,
            ),
    decreases required.len(),
{
    if required.len() > 0 {
        lemma_first_missing_none(required.drop_first(), os);
        if first_missing(required, os.parameters@, os.artifacts@) is None {
            assert forall|k: int| 0 <= k < required.len() implies is_provided(
                #[trigger] required[k],
                os.parameters@,
                os.artifacts@,
            ) by {
                if k > 0 {
                    assert(required[k] == required.drop_first()[k - 1]);
                }
            }
        } else if is_provided(required[0], os.parameters@, os.artifacts@) {
            let rest = required.drop_first();
            let k = choose|k: int| 0 <= k < rest.len() && !is_provided(
                #[trigger] rest[k],
                os.parameters@,
                os.artifacts@,
            );
            assert(rest[k] == required[k + 1]);
        }
    }
}

/// A definition passes its template's checks only if every name the
/// template requires is given: by a parameter of that name with a nonempty
/// value, or by an artifact of that name.
pub proof fn lemma_valid_definitions_give_required_names(t: IpxeScriptTemplate, os: IpxeOs)
    requires
        validation_error(Some(t), os) is None,
    ensures
        forall|k: int| 0 <= k < t.required_params@.len() ==> {
            ||| exists|i: int|
                0 <= i < os.parameters@.len() && os.parameters@[i].name@
                    == (#[trigger] t.required_params@[k])@ && os.parameters@[i].value@.len() > 0
            ||| exists|i: int|
                0 <= i < os.artifacts@.len() && os.artifacts@[i].name@ == t.required_params@[k]@
        },
{
    let required = crate::model::string_views(t.required_params@);
    lemma_first_missing_none(required, os);
    assert forall|k: int| 0 <= k < t.required_params@.len() implies is_provided(
        (#[trigger] t.required_params@[k])@,
        os.parameters@,
        os.artifacts@,
    ) by {
        assert(required[k] == t.required_params@[k]@);
    }
}

/// A definition that leaves one of its template's required names ungiven
/// fails the checks.
pub proof fn lemma_missing_required_name_fails(t: IpxeScriptTemplate, os: IpxeOs, k: int)
    requires
        0 <= k < t.required_params@.len(),
        forall|i: int|
            0 <= i < os.parameters@.len() && os.parameters@[i].name@ == t.required_params@[k]@
                ==> #[trigger] os.parameters@[i].value@.len() == 0,
        forall|i: int|
            0 <= i < os.artifacts@.len() ==> (#[trigger] os.artifacts@[i]).name@
                != t.required_params@[k]@,
    ensures
        validation_error(Some(t), os) is Some,
{
    if validation_error(Some(t), os) is None {
        lemma_valid_definitions_give_required_names(t, os);
        assert(t.required_params@[k] == t.required_params@[k]);
    }
}

/// The template itself fills the name `x`: it is one of its required or
/// reserved names.
pub open spec fn names_filled_by(t: IpxeScriptTemplate, x: Seq<char>) -> bool {
    ||| exists|k: int| 0 <= k < t.required_params@.len() && (#[trigger] t.required_params@[k])@ == x
    ||| exists|k: int| 0 <= k < t.reserved_params@.len() && (#[trigger] t.reserved_params@[k])@ == x
}

/// No parameter carries one of the template's reserved names.
pub open spec fn no_reserved_parameter(t: IpxeScriptTemplate, os: IpxeOs) -> bool {
    forall|i: int, k: int|
        0 <= i < os.parameters@.len() && 0 <= k < t.reserved_params@.len() ==> (
        #[trigger] os.parameters@[i]).name@ != (#[trigger] t.reserved_params@[k])@
}

/// No artifact carries one of the template's reserved names.
pub open spec fn no_reserved_artifact(t: IpxeScriptTemplate, os: IpxeOs) -> bool {
    forall|i: int, k: int|
        0 <= i < os.artifacts@.len() && 0 <= k < t.reserved_params@.len() ==> (
        #[trigger] os.artifacts@[i]).name@ != (#[trigger] t.reserved_params@[k])@
}

/// The required name `r` is given: by a parameter of that name with a
/// nonempty value, or by an artifact of that name.
pub open spec fn name_given(os: IpxeOs, r: Seq<char>) -> bool {
    ||| exists|i: int|
        0 <= i < os.parameters@.len() && (#[trigger] os.parameters@[i]).name@ == r
            && os.parameters@[i].value@.len() > 0
    ||| exists|i: int| 0 <= i < os.artifacts@.len() && (#[trigger] os.artifacts@[i]).name@ == r
}

/// Every name the template requires is given.
pub open spec fn required_names_given(t: IpxeScriptTemplate, os: IpxeOs) -> bool {
    forall|k: int| 0 <= k < t.required_params@.len() ==> name_given(os, (#[trigger] t.required_params@[k])@)
}

/// A parameter the template does not fill itself appears only where the
/// template has `{{extra}}`.
pub open spec fn extras_allowed(t: IpxeScriptTemplate, os: IpxeOs) -> bool {
    (exists|i: int| 0 <= i < os.parameters@.len() && !names_filled_by(t, #[trigger] os.parameters@[i].name@))
        ==> contains_seq(t.template@, seq!['{', '{', 'e', 'x', 't', 'r', 'a', '}', '}'])
}

/// What a definition must satisfy to pass the checks against template `t`.
pub open spec fn meets_template(t: IpxeScriptTemplate, os: IpxeOs) -> bool {
    &&& no_reserved_parameter(t, os)
    &&& no_reserved_artifact(t, os)
    &&& required_names_given(t, os)
    &&& extras_allowed(t, os)
    &&& os.hash@ == definition_hash(os)
}

proof fn lemma_string_views_contains(v: Seq<String>, x: Seq<char>)
    ensures
        string_views(v).contains(x) <==> exists|k: int| 0 <= k < v.len() && (#[trigger] v[k])@ == x,
{
    if string_views(v).contains(x) {
        let j = choose|j: int| 0 <= j < string_views(v).len() && string_views(v)[j] == x;
        assert(v[j]@ == x);
    }
    if exists|k: int| 0 <= k < v.len() && (#[trigger] v[k])@ == x {
        let k = choose|k: int| 0 <= k < v.len() && (#[trigger] v[k])@ == x;
        assert(string_views(v)[k] == x);
    }
}

proof fn lemma_first_reserved_parameter_none(ps: Seq<IpxeOsParameter>, reserved: Seq<Seq<char>>)
    ensures
        first_reserved_parameter(ps, reserved) is None <==> forall|i: int|
            0 <= i < ps.len() ==> !reserved.contains(#[trigger] ps[i].name@),
    decreases ps.len(),
{
    if ps.len() > 0 {
        let rest = ps.drop_first();
        lemma_first_reserved_parameter_none(rest, reserved);
        if first_reserved_parameter(ps, reserved) is None {
            assert forall|i: int| 0 <= i < ps.len() implies !reserved.contains(#[trigger] ps[i].name@) by {
                if i > 0 {
                    assert(ps[i] == rest[i - 1]);
                    assert(!reserved.contains(rest[i - 1].name@));
                }
            }
        } else if !reserved.contains(ps[0].name@) {
            let i = choose|i: int| 0 <= i < rest.len() && reserved.contains(#[trigger] rest[i].name@);
            assert(rest[i] == ps[i + 1]);
            assert(reserved.contains(ps[i + 1].name@));
        }
    }
}

proof fn lemma_first_reserved_artifact_none(arts: Seq<IpxeOsArtifact>, reserved: Seq<Seq<char>>)
    ensures
        first_reserved_artifact(arts, reserved) is None <==> forall|i: int|
            0 <= i < arts.len() ==> !reserved.contains(#[trigger] arts[i].name@),
    decreases arts.len(),
{
    if arts.len() > 0 {
        let rest = arts.drop_first();
        lemma_first_reserved_artifact_none(rest, reserved);
        if first_reserved_artifact(arts, reserved) is None {
            assert forall|i: int| 0 <= i < arts.len() implies !reserved.contains(#[trigger] arts[i].name@) by {
                if i > 0 {
                    assert(arts[i] == rest[i - 1]);
                }
            }
        } else if !reserved.contains(arts[0].name@) {
            let i = choose|i: int| 0 <= i < rest.len() && reserved.contains(#[trigger] rest[i].name@);
            assert(rest[i] == arts[i + 1]);
        }
    }
}

proof fn lemma_check_parts(t: IpxeScriptTemplate, os: IpxeOs)
    ensures
        first_reserved_parameter(os.parameters@, string_views(t.reserved_params@)) is None
            <==> no_reserved_parameter(t, os),
        first_reserved_artifact(os.artifacts@, string_views(t.reserved_params@)) is None
            <==> no_reserved_artifact(t, os),
        first_missing(string_views(t.required_params@), os.parameters@, os.artifacts@) is None
            <==> required_names_given(t, os),
        (has_extra_parameter(os.parameters@, crate::validation::template_names_used(t)) && !contains_seq(
            t.template@,
            crate::script::extra_marker(),
        )) <==> !extras_allowed(t, os),
{
    let ps = os.parameters@;
    let arts = os.artifacts@;
    let req = t.required_params@;
    let res = t.reserved_params@;
    let reserved = string_views(res);
    let required = string_views(req);
    let used = crate::validation::template_names_used(t);
    lemma_first_reserved_parameter_none(ps, reserved);
    lemma_first_reserved_artifact_none(arts, reserved);
    lemma_first_missing_none(required, os);
    assert(no_reserved_parameter(t, os) <==> forall|i: int| 0 <= i < ps.len() ==> !reserved.contains(#[trigger] ps[i].name@)) by {
        assert forall|i: int| 0 <= i < ps.len() implies (!reserved.contains(#[trigger] ps[i].name@) <==> forall|
            k: int,
        | 0 <= k < res.len() ==> ps[i].name@ != (#[trigger] res[k])@) by {
            lemma_string_views_contains(res, ps[i].name@);
        }
    }
    assert(no_reserved_artifact(t, os) <==> forall|i: int| 0 <= i < arts.len() ==> !reserved.contains(#[trigger] arts[i].name@)) by {
        assert forall|i: int| 0 <= i < arts.len() implies (!reserved.contains(#[trigger] arts[i].name@)
            <==> forall|k: int| 0 <= k < res.len() ==> arts[i].name@ != (#[trigger] res[k])@) by {
            lemma_string_views_contains(res, arts[i].name@);
        }
    }
    assert(required_names_given(t, os) <==> forall|k: int| 0 <= k < required.len() ==> is_provided(#[trigger] required[k], ps, arts)) by {
        assert forall|k: int| 0 <= k < required.len() implies (is_provided(#[trigger] required[k], ps, arts)
            <==> name_given(os, req[k]@)) by {
            assert(required[k] == req[k]@);
            if is_provided(required[k], ps, arts) {
                if exists|i: int| 0 <= i < ps.len() && ps[i].name@ == required[k] && ps[i].value@.len() > 0 {
                    let i = choose|i: int| 0 <= i < ps.len() && ps[i].name@ == required[k] && ps[i].value@.len() > 0;
                    assert(os.parameters@[i].name@ == req[k]@);
                } else {
                    let i = choose|i: int| 0 <= i < arts.len() && arts[i].name@ == required[k];
                    assert(os.artifacts@[i].name@ == req[k]@);
                }
            }
        }
        if required_names_given(t, os) {
            assert forall|k: int| 0 <= k < required.len() implies is_provided(#[trigger] required[k], ps, arts) by {
                assert(name_given(os, req[k]@));
            }
        }
        if forall|k: int| 0 <= k < required.len() ==> is_provided(#[trigger] required[k], ps, arts) {
            assert forall|k: int| 0 <= k < req.len() implies name_given(os, (#[trigger] req[k])@) by {
                assert(is_provided(required[k], ps, arts));
            }
        }
    }
    let unnamed = exists|i: int| 0 <= i < ps.len() && !names_filled_by(t, #[trigger] ps[i].name@);
    assert(unnamed <==> has_extra_parameter(ps, used)) by {
        assert forall|i: int| 0 <= i < ps.len() implies (used.contains(#[trigger] ps[i].name@)
            <==> names_filled_by(t, ps[i].name@)) by {
            let x = ps[i].name@;
            lemma_string_views_contains(req, x);
            lemma_string_views_contains(res, x);
            if used.contains(x) {
                let j = choose|j: int| 0 <= j < used.len() && used[j] == x;
                if j < required.len() {
                    assert(required[j] == x);
                } else {
                    assert(reserved[j - required.len()] == x);
                }
            }
            if required.contains(x) {
                let j = choose|j: int| 0 <= j < required.len() && required[j] == x;
                assert(used[j] == x);
            }
            if reserved.contains(x) {
                let j = choose|j: int| 0 <= j < reserved.len() && reserved[j] == x;
                assert(used[required.len() + j] == x);
            }
        }
    }
    assert(seq!['{', '{', 'e', 'x', 't', 'r', 'a', '}', '}'] =~= crate::script::extra_marker());
}

/// A definition passes the checks against its template exactly when no
/// parameter and no artifact carries a reserved name, every required name
/// is given (by a parameter with a nonempty value or by an artifact), a
/// parameter the template neither requires nor reserves appears only where
/// the template has `{{extra}}`, and the stored hash is the definition's
/// hash.
pub proof fn lemma_validation_passes_exactly_when(t: IpxeScriptTemplate, os: IpxeOs)
    ensures
        validation_error(Some(t), os) is None <==> meets_template(t, os),
{
    lemma_check_parts(t, os);
}

proof fn lemma_first_reserved_parameter_at(ps: Seq<IpxeOsParameter>, reserved: Seq<Seq<char>>, i: int)
    requires
        0 <= i < ps.len(),
        reserved.contains(ps[i].name@),
        forall|j: int| 0 <= j < i ==> !reserved.contains(#[trigger] ps[j].name@),
    ensures
        first_reserved_parameter(ps, reserved) == Some(ps[i].name@),
    decreases i,
{
    if i > 0 {
        let rest = ps.drop_first();
        assert(!reserved.contains(ps[0].name@));
        assert forall|j: int| 0 <= j < i - 1 implies !reserved.contains(#[trigger] rest[j].name@) by {
            assert(rest[j] == ps[j + 1]);
        }
        assert(rest[i - 1] == ps[i]);
        lemma_first_reserved_parameter_at(rest, reserved, i - 1);
    }
}

proof fn lemma_first_reserved_artifact_at(arts: Seq<IpxeOsArtifact>, reserved: Seq<Seq<char>>, i: int)
    requires
        0 <= i < arts.len(),
        reserved.contains(arts[i].name@),
        forall|j: int| 0 <= j < i ==> !reserved.contains(#[trigger] arts[j].name@),
    ensures
        first_reserved_artifact(arts, reserved) == Some(arts[i].name@),
    decreases i,
{
    if i > 0 {
        let rest = arts.drop_first();
        assert(!reserved.contains(arts[0].name@));
        assert forall|j: int| 0 <= j < i - 1 implies !reserved.contains(#[trigger] rest[j].name@) by {
            assert(rest[j] == arts[j + 1]);
        }
        assert(rest[i - 1] == arts[i]);
        lemma_first_reserved_artifact_at(rest, reserved, i - 1);
    }
}

proof fn lemma_first_missing_at(required: Seq<Seq<char>>, os: IpxeOs, k: int)
    requires
        0 <= k < required.len(),
        !is_provided(required[k], os.parameters@, os.artifacts@),
        forall|j: int| 0 <= j < k ==> is_provided(#[trigger] required[j], os.parameters@, os.artifacts@),
    ensures
        first_missing(required, os.parameters@, os.artifacts@) == Some(required[k]),
    decreases k,
{
    if k > 0 {
        let rest = required.drop_first();
        assert(is_provided(required[0], os.parameters@, os.artifacts@));
        assert forall|j: int| 0 <= j < k - 1 implies is_provided(#[trigger] rest[j], os.parameters@, os.artifacts@) by {
            assert(rest[j] == required[j + 1]);
        }
        assert(rest[k - 1] == required[k]);
        lemma_first_missing_at(rest, os, k - 1);
    }
}

proof fn lemma_name_given_is_provided(os: IpxeOs, r: Seq<char>)
    ensures
        name_given(os, r) <==> is_provided(r, os.parameters@, os.artifacts@),
{
    if is_provided(r, os.parameters@, os.artifacts@) {
        if exists|i: int| 0 <= i < os.parameters@.len() && os.parameters@[i].name@ == r && os.parameters@[i].value@.len() > 0 {
            let i = choose|i: int| 0 <= i < os.parameters@.len() && os.parameters@[i].name@ == r && os.parameters@[i].value@.len() > 0;
            assert(os.parameters@[i].name@ == r);
        } else {
            let i = choose|i: int| 0 <= i < os.artifacts@.len() && os.artifacts@[i].name@ == r;
            assert(os.artifacts@[i].name@ == r);
        }
    }
}

/// The checks go parameters first: where a parameter carries a reserved
/// name, the error names the first such parameter.
pub proof fn lemma_reserved_parameter_reported(t: IpxeScriptTemplate, os: IpxeOs, i: int)
    requires
        0 <= i < os.parameters@.len(),
        exists|k: int| 0 <= k < t.reserved_params@.len() && (#[trigger] t.reserved_params@[k])@ == os.parameters@[i].name@,
        forall|j: int, k: int|
            0 <= j < i && 0 <= k < t.reserved_params@.len() ==> (#[trigger] os.parameters@[j]).name@
                != (#[trigger] t.reserved_params@[k])@,
    ensures
        validation_error(Some(t), os) == Some(IpxeOsErrorView::ReservedParameterFound(os.parameters@[i].name@)),
{
    let ps = os.parameters@;
    let res = t.reserved_params@;
    let reserved = string_views(res);
    lemma_string_views_contains(res, ps[i].name@);
    assert forall|j: int| 0 <= j < i implies !reserved.contains(#[trigger] ps[j].name@) by {
        lemma_string_views_contains(res, ps[j].name@);
    }
    lemma_first_reserved_parameter_at(ps, reserved, i);
}

/// Then artifacts: where no parameter but an artifact carries a reserved
/// name, the error names the first such artifact.
pub proof fn lemma_reserved_artifact_reported(t: IpxeScriptTemplate, os: IpxeOs, i: int)
    requires
        no_reserved_parameter(t, os),
        0 <= i < os.artifacts@.len(),
        exists|k: int| 0 <= k < t.reserved_params@.len() && (#[trigger] t.reserved_params@[k])@ == os.artifacts@[i].name@,
        forall|j: int, k: int|
            0 <= j < i && 0 <= k < t.reserved_params@.len() ==> (#[trigger] os.artifacts@[j]).name@
                != (#[trigger] t.reserved_params@[k])@,
    ensures
        validation_error(Some(t), os) == Some(IpxeOsErrorView::ReservedParameterFound(os.artifacts@[i].name@)),
{
    let arts = os.artifacts@;
    let res = t.reserved_params@;
    let reserved = string_views(res);
    lemma_check_parts(t, os);
    lemma_string_views_contains(res, arts[i].name@);
    assert forall|j: int| 0 <= j < i implies !reserved.contains(#[trigger] arts[j].name@) by {
        lemma_string_views_contains(res, arts[j].name@);
    }
    lemma_first_reserved_artifact_at(arts, reserved, i);
}

/// Then required names: where no reserved name is used, the error names
/// the first required name that is not given.
pub proof fn lemma_missing_name_reported(t: IpxeScriptTemplate, os: IpxeOs, k: int)
    requires
        no_reserved_parameter(t, os),
        no_reserved_artifact(t, os),
        0 <= k < t.required_params@.len(),
        !name_given(os, t.required_params@[k]@),
        forall|j: int| 0 <= j < k ==> name_given(os, (#[trigger] t.required_params@[j])@),
    ensures
        validation_error(Some(t), os) == Some(IpxeOsErrorView::RequiredParameterMissing(t.required_params@[k]@)),
{
    let req = t.required_params@;
    let required = string_views(req);
    lemma_check_parts(t, os);
    lemma_name_given_is_provided(os, req[k]@);
    assert(required[k] == req[k]@);
    assert forall|j: int| 0 <= j < k implies is_provided(#[trigger] required[j], os.parameters@, os.artifacts@) by {
        assert(required[j] == req[j]@);
        lemma_name_given_is_provided(os, req[j]@);
        assert(name_given(os, req[j]@));
    }
    lemma_first_missing_at(required, os, k);
}

/// Then extra parameters: where the names pass, a parameter the template
/// does not fill itself is refused when the template has no `{{extra}}`.
pub proof fn lemma_extra_parameters_refused(t: IpxeScriptTemplate, os: IpxeOs)
    requires
        no_reserved_parameter(t, os),
        no_reserved_artifact(t, os),
        required_names_given(t, os),
        !extras_allowed(t, os),
    ensures
        validation_error(Some(t), os) == Some(IpxeOsErrorView::ExtraParametersNotSupported),
{
    lemma_check_parts(t, os);
}

/// Last the hash: where everything else passes, a stored hash other than
/// the definition's hash is reported with both hashes.
pub proof fn lemma_hash_mismatch_reported(t: IpxeScriptTemplate, os: IpxeOs)
    requires
        no_reserved_parameter(t, os),
        no_reserved_artifact(t, os),
        required_names_given(t, os),
        extras_allowed(t, os),
        os.hash@ != definition_hash(os),
    ensures
        validation_error(Some(t), os) == Some(
            IpxeOsErrorView::HashMismatch { expected: os.hash@, actual: definition_hash(os) },
        ),
{
    lemma_check_parts(t, os);
}

// ---------------------------------------------------------------------
// What `{{extra}}` receives
// ---------------------------------------------------------------------

proof fn lemma_extra_items_push(ps: Seq<IpxeOsParameter>, used: Seq<Seq<char>>, p: IpxeOsParameter)
    ensures
        extra_items(ps.push(p), used) == if !used.contains(p.name@) && p.value@.len() > 0 {
            extra_items(ps, used).push(p.name@ + seq!['='] + p.value@)
        } else {
            extra_items(ps, used)
        },
{
    assert(ps.push(p).drop_last() =~= ps);
}

proof fn lemma_extra_items_nonempty(ps: Seq<IpxeOsParameter>, used: Seq<Seq<char>>)
    ensures
        forall|k: int| 0 <= k < extra_items(ps, used).len() ==> (#[trigger] extra_items(ps, used)[k]).len() > 0,
    decreases ps.len(),
{
    if ps.len() > 0 {
        let rest = ps.drop_last();
        lemma_extra_items_nonempty(rest, used);
        assert(ps == rest.push(ps.last()));
        lemma_extra_items_push(rest, used, ps.last());
        let items = extra_items(ps, used);
        assert forall|k: int| 0 <= k < items.len() implies (#[trigger] items[k]).len() > 0 by {
            if k < extra_items(rest, used).len() {
                assert(items[k] == extra_items(rest, used)[k]);
            }
        }
    }
}

proof fn lemma_extra_items_all_used(ps: Seq<IpxeOsParameter>, used: Seq<Seq<char>>)
    requires
        forall|i: int| 0 <= i < ps.len() ==> used.contains(#[trigger] ps[i].name@),
    ensures
        extra_items(ps, used) == Seq::<Seq<char>>::empty(),
    decreases ps.len(),
{
    if ps.len() > 0 {
        let rest = ps.drop_last();
        assert forall|i: int| 0 <= i < rest.len() implies used.contains(#[trigger] rest[i].name@) by {
            assert(rest[i] == ps[i]);
        }
        lemma_extra_items_all_used(rest, used);
        assert(used.contains(ps[ps.len() - 1].name@));
    }
}

/// What `{{extra}}` receives, built up one parameter at a time: nothing for
/// no parameters; for one more parameter, nothing more when its name is
/// among the names the render fills itself or its value is empty, and
/// otherwise its item `name=value`, after a single space when something
/// came before it.
pub proof fn lemma_extra_text_grows_by_items(ps: Seq<IpxeOsParameter>, used: Seq<Seq<char>>, p: IpxeOsParameter)
    ensures
        extra_text(Seq::empty(), used) == Seq::<char>::empty(),
        used.contains(p.name@) || p.value@.len() == 0 ==> extra_text(ps.push(p), used) == extra_text(ps, used),
        !used.contains(p.name@) && p.value@.len() > 0 && extra_text(ps, used).len() == 0 ==> extra_text(
            ps.push(p),
            used,
        ) == p.name@ + seq!['='] + p.value@,
        !used.contains(p.name@) && p.value@.len() > 0 && extra_text(ps, used).len() > 0 ==> extra_text(
            ps.push(p),
            used,
        ) == extra_text(ps, used) + seq![' '] + p.name@ + seq!['='] + p.value@,
{
    lemma_extra_items_push(ps, used, p);
    lemma_extra_items_nonempty(ps, used);
    let items = extra_items(ps, used);
    let item = p.name@ + seq!['='] + p.value@;
    if items.len() > 0 {
        assert(join_with(items, seq![' ']).len() > 0) by {
            assert(items[items.len() - 1].len() > 0);
            if items.len() > 1 {
                assert(items.last() == items[items.len() - 1]);
            }
        }
    }
    if !used.contains(p.name@) && p.value@.len() > 0 {
        let more = items.push(item);
        assert(more.drop_last() =~= items);
        if items.len() == 0 {
            assert(more[0] == item);
        }
    }
}

/// `{{extra}}` receives, for two parameters in turn whose names the render
/// does not fill itself and whose values are not empty, their items
/// `name=value` separated by a single space.
pub proof fn lemma_extra_text_of_two(p1: IpxeOsParameter, p2: IpxeOsParameter, used: Seq<Seq<char>>)
    requires
        !used.contains(p1.name@),
        !used.contains(p2.name@),
        p1.value@.len() > 0,
        p2.value@.len() > 0,
    ensures
        extra_text(seq![p1, p2], used) == p1.name@ + seq!['='] + p1.value@ + seq![' '] + p2.name@ + seq![
            '=',
        ] + p2.value@,
{
    let e = Seq::<IpxeOsParameter>::empty();
    lemma_extra_text_grows_by_items(e, used, p1);
    lemma_extra_text_grows_by_items(e.push(p1), used, p2);
    assert(e.push(p1).push(p2) =~= seq![p1, p2]);
    assert(extra_text(e.push(p1), used).len() > 0);
}

/// Without artifacts, an artifact-substituting render gives the script a
/// plain render gives.
pub proof fn lemma_artifact_render_without_artifacts(t: IpxeScriptTemplate, os: IpxeOs, reserved: Seq<IpxeOsParameter>)
    requires
        os.artifacts@.len() == 0,
    ensures
        rendered_script_with_artifacts(t, os, reserved) == rendered_script(t, os, reserved),
{
    assert(template_names_used(t) + artifact_names(os.artifacts@) =~= template_names_used(t));
    assert(insert_artifact_urls(insert_parameters(Seq::empty(), os.parameters@), os.artifacts@)
        == insert_parameters(Seq::empty(), os.parameters@));
    assert(artifact_render_values(os, reserved) == render_values(os, reserved));
}

/// When every parameter is named like one of the template's required or
/// reserved names, `{{extra}}` receives nothing in a plain render.
pub proof fn lemma_render_extra_empty_when_names_covered(t: IpxeScriptTemplate, os: IpxeOs, reserved: Seq<IpxeOsParameter>)
    requires
        forall|i: int| 0 <= i < os.parameters@.len() ==> {
            ||| exists|k: int|
                0 <= k < t.required_params@.len() && t.required_params@[k]@
                    == (#[trigger] os.parameters@[i]).name@
            ||| exists|k: int|
                0 <= k < t.reserved_params@.len() && t.reserved_params@[k]@ == os.parameters@[i].name@
        },
    ensures
        rendered_script(t, os, reserved) == finish_script(
            substitute_all(t.template@, render_values(os, reserved)),
            Seq::empty(),
        ),
{
    let ps = os.parameters@;
    let req = crate::model::string_views(t.required_params@);
    let res = crate::model::string_views(t.reserved_params@);
    let used = template_names_used(t);
    assert forall|i: int| 0 <= i < ps.len() implies used.contains(#[trigger] ps[i].name@) by {
        if exists|k: int| 0 <= k < t.required_params@.len() && t.required_params@[k]@ == ps[i].name@ {
            let k = choose|k: int| 0 <= k < t.required_params@.len() && t.required_params@[k]@ == ps[i].name@;
            assert(used[k] == req[k]);
        } else {
            let k = choose|k: int| 0 <= k < t.reserved_params@.len() && t.reserved_params@[k]@ == ps[i].name@;
            assert(used[req.len() + k] == res[k]);
        }
    }
    lemma_extra_items_all_used(ps, used);
}

/// When every parameter is named like one of the template's required or
/// reserved names or like one of the artifacts, `{{extra}}` receives nothing
/// in an artifact-substituting render.
pub proof fn lemma_artifact_render_extra_empty_when_names_covered(
    t: IpxeScriptTemplate,
    os: IpxeOs,
    reserved: Seq<IpxeOsParameter>,
)
    requires
        forall|i: int| 0 <= i < os.parameters@.len() ==> {
            ||| exists|k: int|
                0 <= k < t.required_params@.len() && t.required_params@[k]@
                    == (#[trigger] os.parameters@[i]).name@
            ||| exists|k: int|
                0 <= k < t.reserved_params@.len() && t.reserved_params@[k]@ == os.parameters@[i].name@
            ||| exists|k: int| 0 <= k < os.artifacts@.len() && os.artifacts@[k].name@ == os.parameters@[i].name@
        },
    ensures
        rendered_script_with_artifacts(t, os, reserved) == finish_script(
            substitute_all(t.template@, artifact_render_values(os, reserved)),
            Seq::empty(),
        ),
{
    let ps = os.parameters@;
    let req = crate::model::string_views(t.required_params@);
    let res = crate::model::string_views(t.reserved_params@);
    let names = artifact_names(os.artifacts@);
    let used = template_names_used(t) + names;
    assert forall|i: int| 0 <= i < ps.len() implies used.contains(#[trigger] ps[i].name@) by {
        if exists|k: int| 0 <= k < t.required_params@.len() && t.required_params@[k]@ == ps[i].name@ {
            let k = choose|k: int| 0 <= k < t.required_params@.len() && t.required_params@[k]@ == ps[i].name@;
            assert(used[k] == req[k]);
        } else if exists|k: int| 0 <= k < t.reserved_params@.len() && t.reserved_params@[k]@ == ps[i].name@ {
            let k = choose|k: int| 0 <= k < t.reserved_params@.len() && t.reserved_params@[k]@ == ps[i].name@;
            assert(used[req.len() + k] == res[k]);
        } else {
            let k = choose|k: int| 0 <= k < os.artifacts@.len() && os.artifacts@[k].name@ == ps[i].name@;
            assert(used[req.len() + res.len() + k] == names[k]);
        }
    }
    lemma_extra_items_all_used(ps, used);
}

// ---------------------------------------------------------------------
// The hashed bytes
// ---------------------------------------------------------------------

/// The text of an optional string; nothing when it is absent.
pub open spec fn present_text(o: Option<String>) -> Seq<char> {
    match o {
        Some(s) => s@,
        None => Seq::empty(),
    }
}

/// The bytes an artifact adds to what is hashed: its name, its URL, then its
/// checksum, auth type and auth token where present, each in UTF-8.
pub open spec fn artifact_hash_bytes(a: IpxeOsArtifact) -> Seq<u8> {
    encode_utf8(a.name@) + encode_utf8(a.url@) + encode_utf8(present_text(a.sha)) + encode_utf8(
        present_text(a.auth_type),
    ) + encode_utf8(present_text(a.auth_token))
}

proof fn lemma_optional_utf8(o: Option<String>)
    ensures
        optional_utf8(o) == encode_utf8(present_text(o)),
{
    if o is None {
        assert(encode_utf8(Seq::<char>::empty()) =~= Seq::<u8>::empty());
    }
}

proof fn lemma_sort_push_last<T: Named>(s: Seq<T>, x: T)
    requires
        forall|i: int| 0 <= i < s.len() ==> !name_before(x.name_of(), #[trigger] s[i].name_of()),
    ensures
        sort_by_name(s.push(x)) == sort_by_name(s).push(x),
{
    broadcast use vstd::seq_lib::group_to_multiset_ensures;

    assert(s.push(x).drop_last() =~= s);
    let t = sort_by_name(s);
    lemma_sort_sorted_permutation(s);
    if t.len() > 0 {
        let l = t.last();
        assert(t.contains(l)) by {
            assert(t[t.len() - 1] == l);
        }
        assert(s.to_multiset().count(l) > 0);
        assert(s.contains(l));
        let k = choose|k: int| 0 <= k < s.len() && s[k] == l;
        assert(!name_before(x.name_of(), s[k].name_of()));
    }
}

proof fn lemma_artifacts_bytes_push(u: Seq<IpxeOsArtifact>, a: IpxeOsArtifact)
    ensures
        artifacts_bytes(u.push(a)) == artifacts_bytes(u) + artifact_hash_bytes(a),
{
    assert(u.push(a).drop_last() =~= u);
    lemma_optional_utf8(a.sha);
    lemma_optional_utf8(a.auth_type);
    lemma_optional_utf8(a.auth_token);
    assert(artifacts_bytes(u.push(a)) =~= artifacts_bytes(u) + artifact_hash_bytes(a));
}

/// A definition with no parameters and no artifacts hashes just the UTF-8
/// bytes of its template name.
pub proof fn lemma_hash_input_of_bare_definition(os: IpxeOs)
    requires
        os.parameters@.len() == 0,
        os.artifacts@.len() == 0,
    ensures
        hash_input(os) == encode_utf8(os.ipxe_template_name@),
{
    assert(hash_input(os) =~= encode_utf8(os.ipxe_template_name@));
}

/// Adding to a definition without artifacts a parameter whose name sorts
/// after all others appends that parameter's name and value, in UTF-8, to
/// what is hashed.
pub proof fn lemma_hash_input_parameter_appended(os1: IpxeOs, os2: IpxeOs, p: IpxeOsParameter)
    requires
        os2.ipxe_template_name == os1.ipxe_template_name,
        os1.artifacts@.len() == 0,
        os2.artifacts@.len() == 0,
        os2.parameters@ == os1.parameters@.push(p),
        forall|i: int| 0 <= i < os1.parameters@.len() ==> !name_before(p.name@, #[trigger] os1.parameters@[i].name@),
    ensures
        hash_input(os2) == hash_input(os1) + encode_utf8(p.name@) + encode_utf8(p.value@),
{
    let s = os1.parameters@;
    assert forall|i: int| 0 <= i < s.len() implies !name_before(p.name_of(), #[trigger] s[i].name_of()) by {
        assert(!name_before(p.name@, s[i].name@));
    }
    lemma_sort_push_last(s, p);
    let t = sort_by_name(s);
    assert(t.push(p).drop_last() =~= t);
    assert(hash_input(os2) =~= hash_input(os1) + encode_utf8(p.name@) + encode_utf8(p.value@));
}

/// Adding to a definition an artifact whose name sorts after all other
/// artifacts appends that artifact's name, URL, and checksum, auth type and
/// auth token where present, in UTF-8, to what is hashed.
pub proof fn lemma_hash_input_artifact_appended(os1: IpxeOs, os2: IpxeOs, a: IpxeOsArtifact)
    requires
        os2.ipxe_template_name == os1.ipxe_template_name,
        os2.parameters@ == os1.parameters@,
        os2.artifacts@ == os1.artifacts@.push(a),
        forall|i: int| 0 <= i < os1.artifacts@.len() ==> !name_before(a.name@, #[trigger] os1.artifacts@[i].name@),
    ensures
        hash_input(os2) == hash_input(os1) + artifact_hash_bytes(a),
{
    let s = os1.artifacts@;
    assert forall|i: int| 0 <= i < s.len() implies !name_before(a.name_of(), #[trigger] s[i].name_of()) by {
        assert(!name_before(a.name@, s[i].name@));
    }
    lemma_sort_push_last(s, a);
    lemma_artifacts_bytes_push(sort_by_name(s), a);
    assert(hash_input(os2) =~= hash_input(os1) + artifact_hash_bytes(a));
}

proof fn lemma_hash_input_last_artifact(os: IpxeOs, s: Seq<IpxeOsArtifact>, a: IpxeOsArtifact)
    requires
        os.artifacts@ == s.push(a),
        forall|i: int| 0 <= i < s.len() ==> !name_before(a.name@, #[trigger] s[i].name@),
    ensures
        hash_input(os) == encode_utf8(os.ipxe_template_name@) + parameters_bytes(
            sort_by_name(os.parameters@),
        ) + artifacts_bytes(sort_by_name(s)) + artifact_hash_bytes(a),
{
    assert forall|i: int| 0 <= i < s.len() implies !name_before(a.name_of(), #[trigger] s[i].name_of()) by {
        assert(!name_before(a.name@, s[i].name@));
    }
    lemma_sort_push_last(s, a);
    lemma_artifacts_bytes_push(sort_by_name(s), a);
    assert(hash_input(os) =~= encode_utf8(os.ipxe_template_name@) + parameters_bytes(
        sort_by_name(os.parameters@),
    ) + artifacts_bytes(sort_by_name(s)) + artifact_hash_bytes(a));
}

proof fn lemma_middle_cancels(p: Seq<u8>, x: Seq<u8>, y: Seq<u8>, q: Seq<u8>)
    requires
        p + x + q == p + y + q,
    ensures
        x == y,
{
    let w = p + x + q;
    assert(w.len() == p.len() + x.len() + q.len());
    assert((p + y + q).len() == p.len() + y.len() + q.len());
    assert(x.len() == y.len());
    assert(x =~= w.subrange(p.len() as int, (p.len() + x.len()) as int));
    assert(y =~= (p + y + q).subrange(p.len() as int, (p.len() + y.len()) as int));
    assert(x =~= y);
}

/// Two definitions that differ only in the checksum of the artifact that
/// sorts last hash different bytes.
#[verifier::spinoff_prover]
#[verifier::rlimit(40)]
pub proof fn lemma_hash_input_reads_checksum(os1: IpxeOs, os2: IpxeOs)
    requires
        os2.ipxe_template_name == os1.ipxe_template_name,
        os2.parameters@ == os1.parameters@,
        os1.artifacts@.len() > 0,
        os2.artifacts@.len() == os1.artifacts@.len(),
        os2.artifacts@.drop_last() == os1.artifacts@.drop_last(),
        os2.artifacts@.last().name == os1.artifacts@.last().name,
        os2.artifacts@.last().url == os1.artifacts@.last().url,
        os2.artifacts@.last().auth_type == os1.artifacts@.last().auth_type,
        os2.artifacts@.last().auth_token == os1.artifacts@.last().auth_token,
        forall|i: int|
            0 <= i < os1.artifacts@.len() - 1 ==> !name_before(
                os1.artifacts@.last().name@,
                #[trigger] os1.artifacts@[i].name@,
            ),
        present_text(os1.artifacts@.last().sha) != present_text(os2.artifacts@.last().sha),
    ensures
        hash_input(os1) != hash_input(os2),
{
    let s = os1.artifacts@.drop_last();
    let a1 = os1.artifacts@.last();
    let a2 = os2.artifacts@.last();
    assert(os1.artifacts@ == s.push(a1));
    assert(os2.artifacts@ == s.push(a2));
    assert forall|i: int| 0 <= i < s.len() implies !name_before(a1.name@, #[trigger] s[i].name@) by {
        assert(s[i] == os1.artifacts@[i]);
    }
    lemma_hash_input_last_artifact(os1, s, a1);
    lemma_hash_input_last_artifact(os2, s, a2);
    let base = encode_utf8(os1.ipxe_template_name@) + parameters_bytes(sort_by_name(os1.parameters@))
        + artifacts_bytes(sort_by_name(s));
    let head = base + encode_utf8(a1.name@) + encode_utf8(a1.url@);
    let tail = encode_utf8(present_text(a1.auth_type)) + encode_utf8(present_text(a1.auth_token));
    let b1 = encode_utf8(present_text(a1.sha));
    let b2 = encode_utf8(present_text(a2.sha));
    assert(base + artifact_hash_bytes(a1) =~= head + b1 + tail);
    assert(base + artifact_hash_bytes(a2) =~= head + b2 + tail);
    if hash_input(os1) == hash_input(os2) {
        lemma_middle_cancels(head, b1, b2, tail);
        encode_utf8_decode_utf8(present_text(a1.sha));
        encode_utf8_decode_utf8(present_text(a2.sha));
    }
}

// ---------------------------------------------------------------------
// Create requests
// ---------------------------------------------------------------------

/// The identifier text `o`, where given, reads as a UUID.
pub open spec fn reads_as_uuid_if_given(o: Option<String>) -> bool {
    match o {
        Some(t) => uuid_from_text(t@) is Some,
        None => true,
    }
}

/// A create request is accepted exactly when it gives a script, an OS image
/// or a template; an OS image it is to use (it gives no script) has a UUID
/// identifier; its name and organisation are not empty; and a given
/// identifier reads as a UUID.
pub proof fn lemma_create_accepted_exactly_when(req: CreateOperatingSystemRequest)
    ensures
        create_refusal(req) is None <==> {
            &&& (req.ipxe_script is Some || req.os_image_id is Some || req.ipxe_template_name is Some)
            &&& (req.ipxe_script is None ==> reads_as_uuid_if_given(req.os_image_id))
            &&& req.name@.len() > 0
            &&& req.org@.len() > 0
            &&& reads_as_uuid_if_given(req.id)
        },
{
}

/// A create request's refusals are checked in turn: a missing kind, then an
/// OS image identifier that is no UUID, then an empty name, then an empty
/// organisation, then an identifier that is no UUID; the first that applies
/// is the one reported.
pub proof fn lemma_create_refusals_in_order(req: CreateOperatingSystemRequest)
    ensures
        req.ipxe_script is None && req.os_image_id is None && req.ipxe_template_name is None
            ==> create_refusal(req) == Some(CreateRefusal::MissingVariant),
        req.ipxe_script is None && req.os_image_id is Some && !reads_as_uuid_if_given(req.os_image_id)
            ==> create_refusal(req) == Some(CreateRefusal::InvalidOsImageId),
        (req.ipxe_script is Some || reads_as_uuid_if_given(req.os_image_id)) && (req.ipxe_script is Some
            || req.os_image_id is Some || req.ipxe_template_name is Some) && req.name@.len() == 0
            ==> create_refusal(req) == Some(CreateRefusal::NameRequired),
        (req.ipxe_script is Some || reads_as_uuid_if_given(req.os_image_id)) && (req.ipxe_script is Some
            || req.os_image_id is Some || req.ipxe_template_name is Some) && req.name@.len() > 0
            && req.org@.len() == 0 ==> create_refusal(req) == Some(CreateRefusal::OrgRequired),
        (req.ipxe_script is Some || reads_as_uuid_if_given(req.os_image_id)) && (req.ipxe_script is Some
            || req.os_image_id is Some || req.ipxe_template_name is Some) && req.name@.len() > 0
            && req.org@.len() > 0 && !reads_as_uuid_if_given(req.id) ==> create_refusal(req) == Some(
            CreateRefusal::InvalidId,
        ),
{
}

} // verus!
