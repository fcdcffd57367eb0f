//! Turning a template text and a set of named values into a boot script:
//! placeholders `{{name}}` are replaced, `{{extra}}` receives the leftover
//! parameters, runs of spaces are squeezed and trailing white space is cut
//! from every line.
use vstd::prelude::*;
use crate::entries::{upsert, upsert_entry};
use crate::model::{string_views, IpxeOsArtifact, IpxeOsParameter};
use crate::text::{
    append_chars, chars_of, collapse_spaces, contains, contains_seq, join, join_with, replace,
    replace_all, squeeze_spaces, trim_line_ends, trim_lines, views_of,
};

verus! {

// ---------------------------------------------------------------------
// Specifications
// ---------------------------------------------------------------------

/// The placeholder for the value named `name`: `{{name}}`.
pub open spec fn placeholder(name: Seq<char>) -> Seq<char> {
    seq!['{', '{'] + name + seq!['}', '}']
}

/// The name of the placeholder that receives the leftover parameters.
pub open spec fn extra_name() -> Seq<char> {
    seq!['e', 'x', 't', 'r', 'a']
}

/// `{{extra}}`.
pub open spec fn extra_marker() -> Seq<char> {
    placeholder(extra_name())
}

/// `text` with, for each entry in turn, every placeholder of the entry's
/// name replaced by the entry's value.
pub open spec fn substitute_all(text: Seq<char>, e: Seq<(String, String)>) -> Seq<char>
    decreases e.len(),
{
    if e.len() == 0 {
        text
    } else {
        replace_all(substitute_all(text, e.drop_last()), placeholder(e.last().0@), e.last().1@)
    }
}

/// `e` after setting, in order, each parameter's name to its value.
pub open spec fn insert_parameters(e: Seq<(String, String)>, ps: Seq<IpxeOsParameter>) -> Seq<(String, String)>
    decreases ps.len(),
{
    if ps.len() == 0 {
        e
    } else {
        let p = ps.last();
        upsert(insert_parameters(e, ps.drop_last()), p.name, p.value)
    }
}

/// The URL under which an artifact is fetched: its local URL when it has
/// one, else its remote URL.
pub open spec fn effective_url(a: IpxeOsArtifact) -> String {
    match a.local_url {
        Some(u) => u,
        None => a.url,
    }
}

/// `e` after setting, in order, each artifact's name to its effective URL.
pub open spec fn insert_artifact_urls(e: Seq<(String, String)>, arts: Seq<IpxeOsArtifact>) -> Seq<(String, String)>
    decreases arts.len(),
{
    if arts.len() == 0 {
        e
    } else {
        let a = arts.last();
        upsert(insert_artifact_urls(e, arts.drop_last()), a.name, effective_url(a))
    }
}

/// `name=value` for each parameter, in order, whose name is not among
/// `used` and whose value is not empty.
pub open spec fn extra_items(ps: Seq<IpxeOsParameter>, used: Seq<Seq<char>>) -> Seq<Seq<char>>
    decreases ps.len(),
{
    if ps.len() == 0 {
        Seq::empty()
    } else {
        let p = ps.last();
        let rest = extra_items(ps.drop_last(), used);
        if !used.contains(p.name@) && p.value@.len() > 0 {
            rest.push(p.name@ + seq!['='] + p.value@)
        } else {
            rest
        }
    }
}

/// The text that replaces `{{extra}}`: the extra items separated by spaces.
pub open spec fn extra_text(ps: Seq<IpxeOsParameter>, used: Seq<Seq<char>>) -> Seq<char> {
    join_with(extra_items(ps, used), seq![' '])
}

/// The last steps of rendering: `{{extra}}`, where it is left, becomes
/// `extra`; then spaces are squeezed and line ends trimmed.
pub open spec fn finish_script(substituted: Seq<char>, extra: Seq<char>) -> Seq<char> {
    let with_extra = if contains_seq(substituted, extra_marker()) {
        replace_all(substituted, extra_marker(), extra)
    } else {
        substituted
    };
    trim_line_ends(squeeze_spaces(with_extra))
}

/// The names of the artifacts.
pub open spec fn artifact_names(arts: Seq<IpxeOsArtifact>) -> Seq<Seq<char>> {
    arts.map_values(|a: IpxeOsArtifact| a.name@)
}

// ---------------------------------------------------------------------
// Implementation
// ---------------------------------------------------------------------

/// Sets each parameter's name to its value, in order.
pub fn insert_parameter_values(e: &mut Vec<(String, String)>, ps: &[IpxeOsParameter])
    ensures
        final(e)@ == insert_parameters(old(e)@, ps@),
{
    let ghost start = e@;
    let mut i: usize = 0;
    assert(ps@.take(0) =~= Seq::<IpxeOsParameter>::empty());
    while i < ps.len()
        invariant
            i <= ps.len(),
            e@ == insert_parameters(start, ps@.take(i as int)),
        decreases ps.len() - i,
    {
        upsert_entry(e, ps[i].name.clone(), ps[i].value.clone());
        assert(ps@.take(i + 1).drop_last() == ps@.take(i as int));
        assert(ps@.take(i + 1).last() == ps@[i as int]);
        i = i + 1;
    }
    assert(ps@.take(ps.len() as int) == ps@);
}

/// Sets each artifact's name to its effective URL, in order.
pub fn insert_artifact_values(e: &mut Vec<(String, String)>, arts: &Vec<IpxeOsArtifact>)
    ensures
        final(e)@ == insert_artifact_urls(old(e)@, arts@),
{
    let ghost start = e@;
    let mut i: usize = 0;
    assert(arts@.take(0) =~= Seq::<IpxeOsArtifact>::empty());
    while i < arts.len()
        invariant
            i <= arts.len(),
            e@ == insert_artifact_urls(start, arts@.take(i as int)),
        decreases arts.len() - i,
    {
        let a = &arts[i];
        let url = match &a.local_url {
            Some(u) => u.clone(),
            None => a.url.clone(),
        };
        upsert_entry(e, a.name.clone(), url);
        assert(arts@.take(i + 1).drop_last() == arts@.take(i as int));
        assert(arts@.take(i + 1).last() == arts@[i as int]);
        i = i + 1;
    }
    assert(arts@.take(arts.len() as int) == arts@);
}

fn placeholder_chars(name: &String) -> (v: Vec<char>)
    ensures
        v@ == placeholder(name@),
{
    let mut v: Vec<char> = vec!['{', '{'];
    let n = chars_of(name.as_str());
    append_chars(&mut v, &n);
    let close: Vec<char> = vec!['}', '}'];
    append_chars(&mut v, &close);
    assert(v@ =~= placeholder(name@));
    v
}

/// Replaces, for each entry in turn, the entry's placeholder by its value.
pub fn substitute(text: Vec<char>, e: &Vec<(String, String)>) -> (out: Vec<char>)
    ensures
        out@ == substitute_all(text@, e@),
{
    let ghost t = text@;
    let mut out = text;
    let mut i: usize = 0;
    assert(e@.take(0) =~= Seq::<(String, String)>::empty());
    while i < e.len()
        invariant
            i <= e.len(),
            out@ == substitute_all(t, e@.take(i as int)),
        decreases e.len() - i,
    {
        let pat = placeholder_chars(&e[i].0);
        let val = chars_of(e[i].1.as_str());
        out = replace(&out, &pat, &val);
        assert(e@.take(i + 1).drop_last() == e@.take(i as int));
        assert(e@.take(i + 1).last() == e@[i as int]);
        i = i + 1;
    }
    assert(e@.take(e.len() as int) == e@);
    out
}

/// Whether `name` is among `names`.
pub fn contains_name(names: &Vec<String>, name: &String) -> (b: bool)
    ensures
        b == string_views(names@).contains(name@),
{
    let mut i: usize = 0;
    while i < names.len()
        invariant
            i <= names.len(),
            forall|k: int| 0 <= k < i ==> names@[k]@ != name@,
        decreases names.len() - i,
    {
        if names[i].eq(name) {
            assert(string_views(names@)[i as int] == name@);
            return true;
        }
        i = i + 1;
    }
    assert forall|k: int| 0 <= k < string_views(names@).len() implies string_views(names@)[k] != name@ by {
        assert(string_views(names@)[k] == names@[k]@);
    }
    false
}

/// The `name=value` items for the parameters that `{{extra}}` receives.
pub fn extra_item_chars(ps: &Vec<IpxeOsParameter>, used: &Vec<String>) -> (out: Vec<Vec<char>>)
    ensures
        views_of(out@) == extra_items(ps@, string_views(used@)),
{
    let mut out: Vec<Vec<char>> = Vec::new();
    let mut i: usize = 0;
    assert(ps@.take(0) =~= Seq::<IpxeOsParameter>::empty());
    assert(views_of(out@) =~= Seq::<Seq<char>>::empty());
    while i < ps.len()
        invariant
            i <= ps.len(),
            views_of(out@) == extra_items(ps@.take(i as int), string_views(used@)),
        decreases ps.len() - i,
    {
        let p = &ps[i];
        assert(ps@.take(i + 1).drop_last() == ps@.take(i as int));
        assert(ps@.take(i + 1).last() == ps@[i as int]);
        if !contains_name(used, &p.name) && !p.value.as_str().is_empty() {
            let mut item = chars_of(p.name.as_str());
            item.push('=');
            let v = chars_of(p.value.as_str());
            append_chars(&mut item, &v);
            let ghost before = views_of(out@);
            out.push(item);
            assert(views_of(out@) =~= before.push(item@));
            assert(item@ =~= p.name@ + seq!['='] + p.value@);
        }
        i = i + 1;
    }
    assert(ps@.take(ps.len() as int) == ps@);
    out
}

/// Fills in `{{extra}}` where it is left, squeezes spaces and trims line
/// ends.
pub fn finish(substituted: Vec<char>, ps: &Vec<IpxeOsParameter>, used: &Vec<String>) -> (out: Vec<char>)
    ensures
        out@ == finish_script(substituted@, extra_text(ps@, string_views(used@))),
{
    let marker: Vec<char> = vec!['{', '{', 'e', 'x', 't', 'r', 'a', '}', '}'];
    assert(marker@ =~= extra_marker());
    let with_extra = if contains(&substituted, &marker) {
        let items = extra_item_chars(ps, used);
        let sp: Vec<char> = vec![' '];
        assert(sp@ =~= seq![' ']);
        let extra = join(&items, &sp);
        replace(&substituted, &marker, &extra)
    } else {
        substituted
    };
    let squeezed = collapse_spaces(with_extra);
    trim_lines(&squeezed)
}

} // verus!
