//! Properties of the library as a whole, proved over the specifications that
//! its functions' contracts use.
use vstd::prelude::*;
use crate::digest::{
    artifacts_bytes, definition_hash, hash_input, insert_by_name, name_before, sort_by_name, Named,
};
use crate::model::{IpxeOs, IpxeOsArtifact, IpxeOsErrorView, IpxeScriptTemplate};
use crate::validation::validation_error;
use crate::entries::{distinct_keys, lemma_lookup_upsert, lemma_upsert_distinct, lookup};
use crate::model::IpxeOsParameter;
use crate::renderer::{artifact_render_values, render_values, with_local_url};
use crate::script::{
    artifact_names, effective_url, extra_marker, extra_text, finish_script, insert_artifact_urls,
    insert_parameters, substitute_all,
};
use crate::renderer::{rendered_script, rendered_script_with_artifacts, stored_entries};
use crate::text::{
    contains_seq, double_space, lemma_squeeze_has_no_double_space, lemma_trim_line_ends,
    lines_end_cleanly, replace_all, squeeze_spaces,
};
use crate::validation::template_names_used;

verus! {

/// Two artifacts agree on everything the hash takes from them.
pub open spec fn same_hashed_fields(a: IpxeOsArtifact, b: IpxeOsArtifact) -> bool {
    &&& a.name == b.name
    &&& a.url == b.url
    &&& a.sha == b.sha
    &&& a.auth_type == b.auth_type
    &&& a.auth_token == b.auth_token
}

/// Two artifact sequences agree, position by position, on everything the
/// hash takes from them.
pub open spec fn same_hashed_artifacts(s: Seq<IpxeOsArtifact>, t: Seq<IpxeOsArtifact>) -> bool {
    &&& s.len() == t.len()
    &&& forall|i: int| 0 <= i < s.len() ==> same_hashed_fields(#[trigger] s[i], t[i])
}

proof fn lemma_insert_keeps_hashed(s: Seq<IpxeOsArtifact>, t: Seq<IpxeOsArtifact>, x: IpxeOsArtifact, y: IpxeOsArtifact)
    requires
        same_hashed_artifacts(s, t),
        same_hashed_fields(x, y),
    ensures
        same_hashed_artifacts(insert_by_name(s, x), insert_by_name(t, y)),
    decreases s.len(),
{
    if s.len() > 0 {
        assert(same_hashed_fields(s[s.len() - 1], t[t.len() - 1]));
        assert(same_hashed_artifacts(s.drop_last(), t.drop_last())) by {
            assert forall|i: int| 0 <= i < s.len() - 1 implies same_hashed_fields(
                #[trigger] s.drop_last()[i],
                t.drop_last()[i],
            ) by {
                assert(same_hashed_fields(s[i], t[i]));
            }
        }
        lemma_insert_keeps_hashed(s.drop_last(), t.drop_last(), x, y);
    }
    let a = insert_by_name(s, x);
    let b = insert_by_name(t, y);
    assert forall|i: int| 0 <= i < a.len() implies same_hashed_fields(#[trigger] a[i], b[i]) by {
        if s.len() == 0 || !crate::digest::name_before(x.name_of(), s.last().name_of()) {
            if i < s.len() {
                assert(same_hashed_fields(s[i], t[i]));
            }
        } else {
            let a0 = insert_by_name(s.drop_last(), x);
            let b0 = insert_by_name(t.drop_last(), y);
            if i < a0.len() {
                assert(same_hashed_fields(a0[i], b0[i]));
            } else {
                assert(same_hashed_fields(s[s.len() - 1], t[t.len() - 1]));
            }
        }
    }
}

proof fn lemma_sort_keeps_hashed(s: Seq<IpxeOsArtifact>, t: Seq<IpxeOsArtifact>)
    requires
        same_hashed_artifacts(s, t),
    ensures
        same_hashed_artifacts(sort_by_name(s), sort_by_name(t)),
    decreases s.len(),
{
    if s.len() > 0 {
        assert(same_hashed_artifacts(s.drop_last(), t.drop_last())) by {
            assert forall|i: int| 0 <= i < s.len() - 1 implies same_hashed_fields(
                #[trigger] s.drop_last()[i],
                t.drop_last()[i],
            ) by {
                assert(same_hashed_fields(s[i], t[i]));
            }
        }
        lemma_sort_keeps_hashed(s.drop_last(), t.drop_last());
        assert(same_hashed_fields(s[s.len() - 1], t[t.len() - 1]));
        lemma_insert_keeps_hashed(sort_by_name(s.drop_last()), sort_by_name(t.drop_last()), s.last(), t.last());
    }
}

proof fn lemma_artifacts_bytes_hashed(s: Seq<IpxeOsArtifact>, t: Seq<IpxeOsArtifact>)
    requires
        same_hashed_artifacts(s, t),
    ensures
        artifacts_bytes(s) == artifacts_bytes(t),
    decreases s.len(),
{
    if s.len() > 0 {
        assert(same_hashed_artifacts(s.drop_last(), t.drop_last())) by {
            assert forall|i: int| 0 <= i < s.len() - 1 implies same_hashed_fields(
                #[trigger] s.drop_last()[i],
                t.drop_last()[i],
            ) by {
                assert(same_hashed_fields(s[i], t[i]));
            }
        }
        lemma_artifacts_bytes_hashed(s.drop_last(), t.drop_last());
        assert(same_hashed_fields(s[s.len() - 1], t[t.len() - 1]));
    }
}

/// The hash of a definition depends only on its template name, its
/// parameters, and its artifacts' names, URLs, checksums and auth fields:
/// not on its name, description, tenant, stored hash, nor on the artifacts'
/// cache strategy and local URL.
pub proof fn lemma_hash_ignores_unhashed_fields(os1: IpxeOs, os2: IpxeOs)
    requires
        os1.ipxe_template_name@ == os2.ipxe_template_name@,
        os1.parameters@ == os2.parameters@,
        same_hashed_artifacts(os1.artifacts@, os2.artifacts@),
    ensures
        definition_hash(os1) == definition_hash(os2),
{
    lemma_sort_keeps_hashed(os1.artifacts@, os2.artifacts@);
    lemma_artifacts_bytes_hashed(sort_by_name(os1.artifacts@), sort_by_name(os2.artifacts@));
    assert(hash_input(os1) == hash_input(os2));
}

/// Storing a definition's own hash in it makes it pass the hash check and
/// changes nothing else that checking it finds: the outcome is that of the
/// other checks.
pub proof fn lemma_rehashed_definition_passes_hash_check(t: Option<IpxeScriptTemplate>, os1: IpxeOs, os2: IpxeOs)
    requires
        os2.ipxe_template_name == os1.ipxe_template_name,
        os2.parameters == os1.parameters,
        os2.artifacts == os1.artifacts,
        os2.hash@ == definition_hash(os1),
    ensures
        validation_error(t, os2) == match validation_error(t, os1) {
            Some(IpxeOsErrorView::HashMismatch { .. }) => None,
            other => other,
        },
{
    lemma_hash_ignores_unhashed_fields(os1, os2);
}


/// The value of the last parameter named `n`.
pub open spec fn last_value(ps: Seq<IpxeOsParameter>, n: Seq<char>) -> Option<String>
    decreases ps.len(),
{
    if ps.len() == 0 {
        None
    } else if ps.last().name@ == n {
        Some(ps.last().value)
    } else {
        last_value(ps.drop_last(), n)
    }
}

/// The effective URL of the last artifact named `n`.
pub open spec fn last_artifact_url(arts: Seq<IpxeOsArtifact>, n: Seq<char>) -> Option<String>
    decreases arts.len(),
{
    if arts.len() == 0 {
        None
    } else if arts.last().name@ == n {
        Some(effective_url(arts.last()))
    } else {
        last_artifact_url(arts.drop_last(), n)
    }
}

proof fn lemma_insert_parameters(e: Seq<(String, String)>, ps: Seq<IpxeOsParameter>, n: Seq<char>)
    requires
        distinct_keys(e),
    ensures
        distinct_keys(insert_parameters(e, ps)),
        lookup(insert_parameters(e, ps), n) == match last_value(ps, n) {
            Some(v) => Some(v),
            None => lookup(e, n),
        },
    decreases ps.len(),
{
    if ps.len() > 0 {
        let p = ps.last();
        lemma_insert_parameters(e, ps.drop_last(), n);
        lemma_upsert_distinct(insert_parameters(e, ps.drop_last()), p.name, p.value);
        lemma_lookup_upsert(insert_parameters(e, ps.drop_last()), p.name, p.value, n);
    }
}

proof fn lemma_insert_artifacts(e: Seq<(String, String)>, arts: Seq<IpxeOsArtifact>, n: Seq<char>)
    requires
        distinct_keys(e),
    ensures
        distinct_keys(insert_artifact_urls(e, arts)),
        lookup(insert_artifact_urls(e, arts), n) == match last_artifact_url(arts, n) {
            Some(v) => Some(v),
            None => lookup(e, n),
        },
    decreases arts.len(),
{
    if arts.len() > 0 {
        let a = arts.last();
        lemma_insert_artifacts(e, arts.drop_last(), n);
        lemma_upsert_distinct(insert_artifact_urls(e, arts.drop_last()), a.name, effective_url(a));
        lemma_lookup_upsert(insert_artifact_urls(e, arts.drop_last()), a.name, effective_url(a), n);
    }
}

/// In a render, the placeholder `{{n}}` receives the value of the last
/// reserved parameter named `n`; only where no reserved parameter has that
/// name does it receive the last definition parameter's value. Names are
/// never listed twice.
pub proof fn lemma_reserved_values_win(os: IpxeOs, reserved: Seq<IpxeOsParameter>, n: Seq<char>)
    ensures
        distinct_keys(render_values(os, reserved)),
        lookup(render_values(os, reserved), n) == match last_value(reserved, n) {
            Some(v) => Some(v),
            None => last_value(os.parameters@, n),
        },
{
    let e0 = Seq::<(String, String)>::empty();
    lemma_insert_parameters(e0, os.parameters@, n);
    lemma_insert_parameters(insert_parameters(e0, os.parameters@), reserved, n);
}

/// In an artifact-substituting render, `{{n}}` receives the last reserved
/// value of that name, else the effective URL of the last artifact of that
/// name, else the last definition parameter's value.
pub proof fn lemma_artifact_values_precedence(os: IpxeOs, reserved: Seq<IpxeOsParameter>, n: Seq<char>)
    ensures
        distinct_keys(artifact_render_values(os, reserved)),
        lookup(artifact_render_values(os, reserved), n) == match last_value(reserved, n) {
            Some(v) => Some(v),
            None => match last_artifact_url(os.artifacts@, n) {
                Some(u) => Some(u),
                None => last_value(os.parameters@, n),
            },
        },
{
    let e0 = Seq::<(String, String)>::empty();
    let e1 = insert_parameters(e0, os.parameters@);
    lemma_insert_parameters(e0, os.parameters@, n);
    lemma_insert_artifacts(e1, os.artifacts@, n);
    lemma_insert_parameters(insert_artifact_urls(e1, os.artifacts@), reserved, n);
}

/// Making local URLs a second time changes nothing: every artifact of the
/// second result equals that of the first.
pub proof fn lemma_fabricate_is_idempotent(a: Seq<IpxeOsArtifact>, b: Seq<IpxeOsArtifact>, c: Seq<IpxeOsArtifact>)
    requires
        a.len() == b.len(),
        b.len() == c.len(),
        forall|i: int| 0 <= i < a.len() ==> with_local_url(#[trigger] a[i], b[i]),
        forall|i: int| 0 <= i < b.len() ==> with_local_url(#[trigger] b[i], c[i]),
    ensures
        c == b,
{
    assert forall|i: int| 0 <= i < c.len() implies c[i] == b[i] by {
        assert(with_local_url(a[i], b[i]));
        assert(with_local_url(b[i], c[i]));
    }
    assert(c =~= b);
}


// ---------------------------------------------------------------------
// The order of names
// ---------------------------------------------------------------------

/// No name comes before itself.
pub proof fn lemma_name_before_irreflexive(a: Seq<char>)
    ensures
        !name_before(a, a),
    decreases a.len(),
{
    if a.len() > 0 {
        lemma_name_before_irreflexive(a.drop_first());
    }
}

/// The order of names is transitive.
pub proof fn lemma_name_before_transitive(a: Seq<char>, b: Seq<char>, c: Seq<char>)
    requires
        name_before(a, b),
        name_before(b, c),
    ensures
        name_before(a, c),
    decreases a.len(),
{
    if a.len() > 0 && b.len() > 0 && c.len() > 0 && a[0] == b[0] && b[0] == c[0] {
        lemma_name_before_transitive(a.drop_first(), b.drop_first(), c.drop_first());
    }
}

/// Of two different names, one comes before the other.
pub proof fn lemma_name_before_total(a: Seq<char>, b: Seq<char>)
    requires
        a != b,
    ensures
        name_before(a, b) || name_before(b, a),
    decreases a.len(),
{
    if a.len() > 0 && b.len() > 0 {
        if a[0] == b[0] {
            if a.drop_first() == b.drop_first() {
                assert(a =~= seq![a[0]] + a.drop_first());
                assert(b =~= seq![b[0]] + b.drop_first());
            }
            lemma_name_before_total(a.drop_first(), b.drop_first());
        }
    } else if a.len() == 0 && b.len() == 0 {
        assert(a =~= b);
    }
}

proof fn lemma_name_before_asymmetric(a: Seq<char>, b: Seq<char>)
    requires
        name_before(a, b),
    ensures
        !name_before(b, a),
{
    if name_before(b, a) {
        lemma_name_before_transitive(a, b, a);
        lemma_name_before_irreflexive(a);
    }
}

/// No element's name comes before that of an element earlier in `s`.
pub open spec fn sorted_by_name<T: Named>(s: Seq<T>) -> bool {
    forall|i: int, j: int| 0 <= i < j < s.len() ==> !name_before(#[trigger] s[j].name_of(), #[trigger] s[i].name_of())
}

/// Elements of `s` that share a name are equal.
pub open spec fn names_identify<T: Named>(s: Seq<T>) -> bool {
    forall|u: T, v: T| s.contains(u) && s.contains(v) && u.name_of() == v.name_of() ==> u == v
}

proof fn lemma_insert_sorted<T: Named>(s: Seq<T>, x: T)
    requires
        sorted_by_name(s),
    ensures
        sorted_by_name(insert_by_name(s, x)),
        insert_by_name(s, x).to_multiset() == s.to_multiset().insert(x),
    decreases s.len(),
{
    broadcast use vstd::seq_lib::group_to_multiset_ensures;

    if s.len() == 0 || !name_before(x.name_of(), s.last().name_of()) {
        let t = s.push(x);
        assert forall|i: int, j: int| 0 <= i < j < t.len() implies !name_before(
            #[trigger] t[j].name_of(),
            #[trigger] t[i].name_of(),
        ) by {
            if j == s.len() {
                let last = s.last();
                if name_before(x.name_of(), s[i].name_of()) {
                    if i < s.len() - 1 {
                        assert(!name_before(s[s.len() - 1].name_of(), s[i].name_of()));
                        if s[i].name_of() != last.name_of() {
                            lemma_name_before_total(s[i].name_of(), last.name_of());
                            lemma_name_before_transitive(x.name_of(), s[i].name_of(), last.name_of());
                        }
                    }
                }
            } else {
                assert(t[i] == s[i] && t[j] == s[j]);
            }
        }
    } else {
        let d = s.drop_last();
        let last = s.last();
        assert(sorted_by_name(d)) by {
            assert forall|i: int, j: int| 0 <= i < j < d.len() implies !name_before(
                #[trigger] d[j].name_of(),
                #[trigger] d[i].name_of(),
            ) by {
                assert(d[i] == s[i] && d[j] == s[j]);
            }
        }
        lemma_insert_sorted(d, x);
        let u = insert_by_name(d, x);
        let t = u.push(last);
        assert forall|i: int, j: int| 0 <= i < j < t.len() implies !name_before(
            #[trigger] t[j].name_of(),
            #[trigger] t[i].name_of(),
        ) by {
            if j == u.len() {
                let e = u[i];
                assert(u.contains(e));
                assert(u.to_multiset().count(e) > 0);
                if e == x {
                    lemma_name_before_asymmetric(x.name_of(), last.name_of());
                } else {
                    assert(d.to_multiset().count(e) > 0);
                    assert(d.contains(e));
                    let k = choose|k: int| 0 <= k < d.len() && d[k] == e;
                    assert(s[k] == e);
                    assert(!name_before(s[s.len() - 1].name_of(), s[k].name_of()));
                }
            } else {
                assert(t[i] == u[i] && t[j] == u[j]);
            }
        }
        assert(s == d.push(last));
        assert(t.to_multiset() =~= s.to_multiset().insert(x));
    }
}

/// Sorting by name gives a sequence sorted by name with the same elements.
pub proof fn lemma_sort_sorted_permutation<T: Named>(s: Seq<T>)
    ensures
        sorted_by_name(sort_by_name(s)),
        sort_by_name(s).to_multiset() == s.to_multiset(),
    decreases s.len(),
{
    broadcast use vstd::seq_lib::group_to_multiset_ensures;

    if s.len() == 0 {
        assert(s.to_multiset() =~= sort_by_name(s).to_multiset());
    } else {
        lemma_sort_sorted_permutation(s.drop_last());
        lemma_insert_sorted(sort_by_name(s.drop_last()), s.last());
        assert(s == s.drop_last().push(s.last()));
    }
}

proof fn lemma_sorted_unique<T: Named>(a: Seq<T>, b: Seq<T>)
    requires
        sorted_by_name(a),
        sorted_by_name(b),
        a.to_multiset() == b.to_multiset(),
        names_identify(a),
    ensures
        a == b,
    decreases a.len(),
{
    broadcast use vstd::seq_lib::group_to_multiset_ensures;
    broadcast use vstd::multiset::group_multiset_axioms;

    assert(a.to_multiset().len() == a.len());
    assert(b.to_multiset().len() == b.len());
    assert(a.len() == b.len());
    if a.len() > 0 {
        let n = a.len() - 1;
        let x = a[n];
        let y = b[n];
        assert(a.contains(x));
        assert(b.to_multiset().count(x) > 0);
        assert(b.contains(x));
        assert(b.contains(y));
        assert(a.to_multiset().count(y) > 0);
        assert(a.contains(y));
        if x != y {
            let k = choose|k: int| 0 <= k < b.len() && b[k] == x;
            let m = choose|m: int| 0 <= m < a.len() && a[m] == y;
            assert(m != n);
            assert(k != n);
            assert(!name_before(a[n].name_of(), a[m].name_of()));
            assert(!name_before(b[n].name_of(), b[k].name_of()));
            if x.name_of() != y.name_of() {
                lemma_name_before_total(x.name_of(), y.name_of());
            }
        }
        let a1 = a.drop_last();
        let b1 = b.drop_last();
        assert(a == a1.push(x));
        assert(b == b1.push(x));
        assert(a1.to_multiset() =~= b1.to_multiset()) by {
            assert(a1.push(x).to_multiset() =~= a1.to_multiset().insert(x));
            assert(b1.push(x).to_multiset() =~= b1.to_multiset().insert(x));
            assert forall|e: T| a1.to_multiset().count(e) == b1.to_multiset().count(e) by {
                assert(a.to_multiset().count(e) == b.to_multiset().count(e));
                if e == x {
                    assert(a1.to_multiset().insert(x).count(e) == a1.to_multiset().count(e) + 1);
                    assert(b1.to_multiset().insert(x).count(e) == b1.to_multiset().count(e) + 1);
                } else {
                    assert(a1.to_multiset().insert(x).count(e) == a1.to_multiset().count(e));
                    assert(b1.to_multiset().insert(x).count(e) == b1.to_multiset().count(e));
                }
            }
        }
        assert(sorted_by_name(a1)) by {
            assert forall|i: int, j: int| 0 <= i < j < a1.len() implies !name_before(
                #[trigger] a1[j].name_of(),
                #[trigger] a1[i].name_of(),
            ) by {
                assert(a1[i] == a[i] && a1[j] == a[j]);
            }
        }
        assert(sorted_by_name(b1)) by {
            assert forall|i: int, j: int| 0 <= i < j < b1.len() implies !name_before(
                #[trigger] b1[j].name_of(),
                #[trigger] b1[i].name_of(),
            ) by {
                assert(b1[i] == b[i] && b1[j] == b[j]);
            }
        }
        assert(names_identify(a1)) by {
            assert forall|u: T, v: T| a1.contains(u) && a1.contains(v) && u.name_of() == v.name_of() implies u == v by {
                let i = choose|i: int| 0 <= i < a1.len() && a1[i] == u;
                let j = choose|j: int| 0 <= j < a1.len() && a1[j] == v;
                assert(a[i] == u && a[j] == v);
                assert(a.contains(u) && a.contains(v));
            }
        }
        lemma_sorted_unique(a1, b1);
    }
}

/// Sorting by name does not depend on the order of the input, provided
/// elements that share a name are equal.
pub proof fn lemma_sort_ignores_order<T: Named>(s: Seq<T>, t: Seq<T>)
    requires
        s.to_multiset() == t.to_multiset(),
        names_identify(s),
    ensures
        sort_by_name(s) == sort_by_name(t),
{
    broadcast use vstd::seq_lib::group_to_multiset_ensures;

    lemma_sort_sorted_permutation(s);
    lemma_sort_sorted_permutation(t);
    let a = sort_by_name(s);
    assert(names_identify(a)) by {
        assert forall|u: T, v: T| a.contains(u) && a.contains(v) && u.name_of() == v.name_of() implies u == v by {
            assert(a.to_multiset().count(u) > 0 && a.to_multiset().count(v) > 0);
            assert(s.to_multiset().count(u) > 0 && s.to_multiset().count(v) > 0);
            assert(s.contains(u) && s.contains(v));
        }
    }
    lemma_sorted_unique(a, sort_by_name(t));
}

/// The hash of a definition does not depend on the order of its parameters
/// nor of its artifacts, as long as parameters that share a name are equal
/// and artifacts that share a name are equal.
pub proof fn lemma_hash_ignores_order(os1: IpxeOs, os2: IpxeOs)
    requires
        os1.ipxe_template_name@ == os2.ipxe_template_name@,
        os1.parameters@.to_multiset() == os2.parameters@.to_multiset(),
        os1.artifacts@.to_multiset() == os2.artifacts@.to_multiset(),
        names_identify(os1.parameters@),
        names_identify(os1.artifacts@),
    ensures
        definition_hash(os1) == definition_hash(os2),
{
    lemma_sort_ignores_order(os1.parameters@, os2.parameters@);
    lemma_sort_ignores_order(os1.artifacts@, os2.artifacts@);
    assert(hash_input(os1) == hash_input(os2));
}


/// A rendered script has no two neighbouring spaces, and none of its lines
/// ends in white space; so too with artifact substitution.
pub proof fn lemma_rendered_scripts_are_clean(t: IpxeScriptTemplate, os: IpxeOs, reserved: Seq<IpxeOsParameter>)
    ensures
        !contains_seq(rendered_script(t, os, reserved), double_space()),
        lines_end_cleanly(rendered_script(t, os, reserved)),
        !contains_seq(rendered_script_with_artifacts(t, os, reserved), double_space()),
        lines_end_cleanly(rendered_script_with_artifacts(t, os, reserved)),
{
    lemma_finished_script_is_clean(
        substitute_all(t.template@, render_values(os, reserved)),
        extra_text(os.parameters@, template_names_used(t)),
    );
    lemma_finished_script_is_clean(
        substitute_all(t.template@, artifact_render_values(os, reserved)),
        extra_text(os.parameters@, template_names_used(t) + artifact_names(os.artifacts@)),
    );
}

proof fn lemma_finished_script_is_clean(substituted: Seq<char>, extra: Seq<char>)
    ensures
        !contains_seq(finish_script(substituted, extra), double_space()),
        lines_end_cleanly(finish_script(substituted, extra)),
{
    let with_extra = if contains_seq(substituted, extra_marker()) {
        replace_all(substituted, extra_marker(), extra)
    } else {
        substituted
    };
    lemma_squeeze_has_no_double_space(with_extra);
    lemma_trim_line_ends(squeeze_spaces(with_extra));
}


/// The value paired last with the name `n`.
pub open spec fn last_paired<V>(input: Seq<(String, V)>, n: Seq<char>) -> Option<V>
    decreases input.len(),
{
    if input.len() == 0 {
        None
    } else if input.last().0@ == n {
        Some(input.last().1)
    } else {
        last_paired(input.drop_last(), n)
    }
}

/// A renderer made from name and template pairs stores each name once, with
/// the template paired last with it.
pub proof fn lemma_with_templates_keeps_last(input: Seq<(String, IpxeScriptTemplate)>, n: Seq<char>)
    ensures
        distinct_keys(stored_entries(input)),
        lookup(stored_entries(input), n) == last_paired(input, n),
    decreases input.len(),
{
    if input.len() > 0 {
        lemma_with_templates_keeps_last(input.drop_last(), n);
        lemma_upsert_distinct(stored_entries(input.drop_last()), input.last().0, input.last().1);
        lemma_lookup_upsert(stored_entries(input.drop_last()), input.last().0, input.last().1, n);
    }
}

} // verus!
