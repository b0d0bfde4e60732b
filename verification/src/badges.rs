//! The badge resolver: badge names from a message's tags are looked up in
//! a catalog and become concrete image addresses.

use crate::parser::{badges_of, user_badges};
use crate::tags::TagMap;
use crate::text::{texts, Line};
use vstd::prelude::*;
use vstd::string::*;

verus! {

/// One catalog entry as mathematical values.
pub struct BadgeView {
    pub name: Seq<char>,
    pub url: Seq<char>,
}

/// `s` with every occurrence of `pattern` replaced by `with`, found from
/// left to right without overlap. An empty pattern replaces nothing.
pub open spec fn replace_all(s: Seq<char>, pattern: Seq<char>, with: Seq<char>) -> Seq<char>
    decreases s.len(),
{
    if pattern.len() == 0 || s.len() < pattern.len() {
        s
    } else if s.take(pattern.len() as int) == pattern {
        with + replace_all(s.skip(pattern.len() as int), pattern, with)
    } else {
        seq![s[0]] + replace_all(s.skip(1), pattern, with)
    }
}

/// The placeholder for the image size in an address template.
pub open spec fn size_placeholder() -> Seq<char> {
    "{SIZE}"@
}

/// The image size that is asked for.
pub open spec fn requested_size() -> Seq<char> {
    "3"@
}

/// The address that a template gives for the requested size.
pub open spec fn sized(template: Seq<char>) -> Seq<char> {
    replace_all(template, size_placeholder(), requested_size())
}

/// The address template of the first catalog entry with this name.
pub open spec fn lookup(catalog: Seq<BadgeView>, name: Seq<char>) -> Option<Seq<char>>
    decreases catalog.len(),
{
    if catalog.len() == 0 {
        None
    } else if catalog[0].name == name {
        Some(catalog[0].url)
    } else {
        lookup(catalog.drop_first(), name)
    }
}

/// What one badge name resolves to: nothing when the catalog does not
/// know the name.
pub open spec fn resolve_one(catalog: Seq<BadgeView>, name: Seq<char>) -> Option<BadgeView> {
    match lookup(catalog, name) {
        Some(template) => Some(BadgeView { name, url: sized(template) }),
        None => None,
    }
}

/// `resolve_one` for a fixed catalog, as a function value.
pub open spec fn resolve_fn(catalog: Seq<BadgeView>) -> spec_fn(Seq<char>) -> Option<BadgeView> {
    |name: Seq<char>| resolve_one(catalog, name)
}

/// The resolved badges for a list of badge names: one for each name that
/// the catalog knows, in the order of the names.
pub open spec fn resolve(names: Seq<Seq<char>>, catalog: Seq<BadgeView>) -> Seq<BadgeView> {
    names.filter_map(resolve_fn(catalog))
}

/// Resolving a list of names in two parts gives the two results one after
/// the other.
pub proof fn lemma_resolve_concat(
    first: Seq<Seq<char>>,
    second: Seq<Seq<char>>,
    catalog: Seq<BadgeView>,
)
    ensures
        resolve(first + second, catalog) == resolve(first, catalog) + resolve(second, catalog),
    decreases second.len(),
{
    if second.len() == 0 {
        assert(first + second =~= first);
        assert(resolve(first, catalog) + resolve(second, catalog) =~= resolve(first, catalog));
    } else {
        let init = second.drop_last();
        lemma_resolve_concat(first, init, catalog);
        assert((first + second).drop_last() =~= first + init);
        assert((first + second).last() == second.last());
        match resolve_one(catalog, second.last()) {
            Some(badge) => {
                assert(resolve(first + second, catalog) =~= resolve(first, catalog) + (resolve(
                    init,
                    catalog,
                ) + seq![badge]));
            },
            None => {},
        }
    }
}

/// A badge name that the catalog lacks is left out: the resolved list is
/// the one that the other names give.
pub proof fn lemma_unknown_badge_omitted(names: Seq<Seq<char>>, i: int, catalog: Seq<BadgeView>)
    requires
        0 <= i < names.len(),
        lookup(catalog, names[i]) is None,
    ensures
        resolve(names, catalog) == resolve(names.remove(i), catalog),
{
    let head = names.take(i);
    let tail = names.skip(i + 1);
    let one = seq![names[i]];
    assert(names =~= head + one + tail);
    assert(names.remove(i) =~= head + tail);
    lemma_resolve_concat(head + one, tail, catalog);
    lemma_resolve_concat(head, one, catalog);
    lemma_resolve_concat(head, tail, catalog);
    assert(one.drop_last() =~= Seq::<Seq<char>>::empty());
    reveal_with_fuel(Seq::filter_map, 2);
    assert(resolve(one, catalog) =~= Seq::<BadgeView>::empty());
    assert(resolve(head, catalog) + resolve(one, catalog) =~= resolve(head, catalog));
}

/// Every resolved badge stands for a name of the list that the catalog
/// knows, with the address that the catalog's template gives.
pub proof fn lemma_resolved_are_known(names: Seq<Seq<char>>, catalog: Seq<BadgeView>, j: int)
    requires
        0 <= j < resolve(names, catalog).len(),
    ensures
        names.contains(resolve(names, catalog)[j].name),
        lookup(catalog, resolve(names, catalog)[j].name) matches Some(template) && resolve(
            names,
            catalog,
        )[j].url == sized(template),
    decreases names.len(),
{
    if names.len() > 0 {
        let init = names.drop_last();
        let last = names.last();
        if j < resolve(init, catalog).len() {
            lemma_resolved_are_known(init, catalog, j);
            let name = resolve(init, catalog)[j].name;
            let k = choose|k: int| 0 <= k < init.len() && init[k] == name;
            assert(names[k] == name);
        } else {
            assert(names[names.len() - 1] == last);
        }
    }
}

/// A catalog entry: a badge name and its address template.
#[derive(Debug)]
pub struct TwitchBadge {
    pub name: String,
    pub url: String,
}

impl Clone for TwitchBadge {
    fn clone(&self) -> (copy: Self)
        ensures
            copy@ == self@,
    {
        TwitchBadge { name: self.name.clone(), url: self.url.clone() }
    }
}

impl View for TwitchBadge {
    type V = BadgeView;

    open spec fn view(&self) -> BadgeView {
        BadgeView { name: self.name@, url: self.url@ }
    }
}

/// A badge of a message with its concrete image address.
#[derive(Debug)]
pub struct ResolvedBadge {
    pub name: String,
    pub url: String,
}

impl Clone for ResolvedBadge {
    fn clone(&self) -> (copy: Self)
        ensures
            copy@ == self@,
    {
        ResolvedBadge { name: self.name.clone(), url: self.url.clone() }
    }
}

impl View for ResolvedBadge {
    type V = BadgeView;

    open spec fn view(&self) -> BadgeView {
        BadgeView { name: self.name@, url: self.url@ }
    }
}

/// The views of a catalog's entries.
pub open spec fn catalog_view(catalog: Seq<TwitchBadge>) -> Seq<BadgeView> {
    Seq::new(catalog.len(), |i: int| catalog[i]@)
}

/// The views of a list of resolved badges.
pub open spec fn resolved_view(badges: Seq<ResolvedBadge>) -> Seq<BadgeView> {
    Seq::new(badges.len(), |i: int| badges[i]@)
}

/// Replaces every occurrence of `pattern` in `text` by `with`.
fn replace(text: &str, pattern: &str, with: &str) -> (r: String)
    ensures
        r@ == replace_all(text@, pattern@, with@),
{
    let line = Line::new(text);
    let pat = Line::new(pattern);
    let n = line.len();
    let m = pat.len();
    if m == 0 || n < m {
        return text.to_owned();
    }
    let ghost whole = replace_all(text@, pattern@, with@);
    let mut out = String::new();
    let mut start: usize = 0;
    let mut pos: usize = 0;
    proof {
        assert(line@.subrange(0, 0) =~= Seq::empty());
        assert(line@.skip(0) =~= line@);
        assert(out@ + line@.subrange(0, 0) + whole =~= whole);
    }
    while pos <= n - m
        invariant
            0 < m <= n,
            n == line@.len(),
            m == pat@.len(),
            line@ == text@,
            pat@ == pattern@,
            start <= pos <= n,
            whole == out@ + line@.subrange(start as int, pos as int) + replace_all(
                line@.skip(pos as int),
                pattern@,
                with@,
            ),
        decreases n - pos,
    {
        let ghost rest = line@.skip(pos as int);
        proof {
            assert(rest.take(m as int) =~= line@.subrange(pos as int, pos + m));
        }
        if line.matches_at(pos, &pat) {
            out.append(line.slice(start, pos));
            out.append(with);
            proof {
                assert(rest.skip(m as int) =~= line@.skip(pos + m));
                assert(line@.subrange(pos + m, pos + m) =~= Seq::empty());
                assert(whole =~= out@ + line@.subrange(pos + m, pos + m) + replace_all(
                    line@.skip(pos + m),
                    pattern@,
                    with@,
                ));
            }
            pos = pos + m;
            start = pos;
        } else {
            proof {
                assert(rest.skip(1) =~= line@.skip(pos + 1));
                assert(line@.subrange(start as int, pos + 1) =~= line@.subrange(
                    start as int,
                    pos as int,
                ) + seq![rest[0]]);
                assert(whole =~= out@ + line@.subrange(start as int, pos + 1) + replace_all(
                    line@.skip(pos + 1),
                    pattern@,
                    with@,
                ));
            }
            pos = pos + 1;
        }
    }
    let tail = line.slice(start, n);
    proof {
        assert(replace_all(line@.skip(pos as int), pattern@, with@) == line@.skip(pos as int));
        assert(line@.subrange(start as int, pos as int) + line@.skip(pos as int) =~= tail@);
        assert(whole =~= out@ + tail@);
    }
    out.append(tail);
    out
}

/// The address that a template gives for the requested size.
pub fn sized_url(template: &str) -> (url: String)
    ensures
        url@ == sized(template@),
{
    replace(template, "{SIZE}", "3")
}

/// The first catalog entry with this name, if there is one.
pub fn find_badge<'a>(catalog: &'a Vec<TwitchBadge>, name: &String) -> (entry: Option<
    &'a TwitchBadge,
>)
    ensures
        entry is Some <==> lookup(catalog_view(catalog@), name@) is Some,
        entry matches Some(e) ==> e.name@ == name@ && lookup(catalog_view(catalog@), name@)
            == Some(e.url@),
{
    let ghost entries = catalog_view(catalog@);
    let mut i: usize = 0;
    proof {
        assert(entries.skip(0) =~= entries);
    }
    while i < catalog.len()
        invariant
            i <= catalog@.len(),
            entries == catalog_view(catalog@),
            lookup(entries, name@) == lookup(entries.skip(i as int), name@),
        decreases catalog@.len() - i,
    {
        proof {
            assert(entries.skip(i as int)[0] == catalog@[i as int]@);
            assert(entries.skip(i as int).drop_first() =~= entries.skip(i + 1));
        }
        if catalog[i].name == *name {
            return Some(&catalog[i]);
        }
        i += 1;
    }
    None
}

/// The resolved badges for a list of badge names.
pub fn resolve_names(names: &Vec<String>, catalog: &Vec<TwitchBadge>) -> (badges: Vec<
    ResolvedBadge,
>)
    ensures
        resolved_view(badges@) == resolve(texts(names@), catalog_view(catalog@)),
{
    let ghost wanted = texts(names@);
    let ghost entries = catalog_view(catalog@);
    let mut badges: Vec<ResolvedBadge> = Vec::new();
    let mut i: usize = 0;
    proof {
        assert(wanted.take(0) =~= Seq::empty());
        assert(resolved_view(badges@) =~= wanted.take(0).filter_map(resolve_fn(entries)));
    }
    while i < names.len()
        invariant
            i <= names@.len(),
            wanted == texts(names@),
            entries == catalog_view(catalog@),
            resolved_view(badges@) == wanted.take(i as int).filter_map(resolve_fn(entries)),
        decreases names@.len() - i,
    {
        let ghost before = resolved_view(badges@);
        proof {
            wanted.lemma_filter_map_take_succ(resolve_fn(entries), i as int);
        }
        match find_badge(catalog, &names[i]) {
            Some(entry) => {
                let badge = ResolvedBadge {
                    name: names[i].clone(),
                    url: sized_url(entry.url.as_str()),
                };
                proof {
                    assert(resolve_one(entries, wanted[i as int]) == Some(badge@));
                }
                badges.push(badge);
                proof {
                    assert(resolved_view(badges@) =~= before + seq![badge@]);
                }
            },
            None => {
                proof {
                    assert(resolved_view(badges@) =~= before + Seq::empty());
                }
            },
        }
        i += 1;
    }
    proof {
        assert(wanted.take(i as int) =~= wanted);
    }
    badges
}

/// The resolved badges of a message with these tags: one for each badge
/// of the badge tag that the catalog knows, in the order of the tag.
pub fn resolve_badges(tags: &TagMap, catalog: &Vec<TwitchBadge>) -> (badges: Vec<ResolvedBadge>)
    ensures
        resolved_view(badges@) == resolve(badges_of(tags@), catalog_view(catalog@)),
{
    let names = user_badges(tags);
    resolve_names(&names, catalog)
}

} // verus!
