//! Client-side logic for a NuGet package registry: the version-range grammar,
//! resource resolution over a service index, and the assembly of paginated
//! registration pages into one ordered sequence of leaves.

pub mod address;
pub mod err;
pub mod model;
pub mod ops;
pub mod text;
pub mod util;

pub use err::Error;

use address::{parse_url, url_parse};
use ops::service_index::{ServiceIndex, ServiceResource};
use text::{join, joined, same_text, texts};
use vstd::prelude::*;

verus! {

/// One resource of the service index: its type and the serialization of its
/// base URL.
struct Resource {
    kind: String,
    base: String,
}

/// What a registry offers: for each resource type of its service index, the
/// base URL of that resource.
pub struct NugetRegistry {
    /// One entry for each resource type, in the order in which the types
    /// were first recorded. No type occurs twice.
    index: Vec<Resource>,
}

/// No resource type occurs twice among `entries`.
spec fn distinct_kinds(entries: Seq<Resource>) -> bool {
    forall|i: int, j: int|
        0 <= i < j < entries.len() ==> (#[trigger] entries[i]).kind@ != (#[trigger] entries[j]).kind@
}

/// The mapping that a list of resources stands for, read front to back: a
/// later resource replaces an earlier one of the same type.
spec fn index_map(entries: Seq<Resource>) -> Map<Seq<char>, Seq<char>>
    decreases entries.len(),
{
    if entries.len() == 0 {
        Map::empty()
    } else {
        index_map(entries.drop_last()).insert(entries.last().kind@, entries.last().base@)
    }
}

/// The mapping from resource type to base URL that a service index gives
/// rise to. Each `id` is parsed as a URL. Where a type occurs more than once
/// the last occurrence counts. If some `id` is no URL, the outcome is the
/// error of the first such `id`.
pub open spec fn resource_index(resources: Seq<ServiceResource>) -> Result<
    Map<Seq<char>, Seq<char>>,
    url::ParseError,
>
    decreases resources.len(),
{
    if resources.len() == 0 {
        Ok(Map::empty())
    } else {
        match resource_index(resources.drop_last()) {
            Err(e) => Err(e),
            Ok(index) => match url_parse(resources.last().id@) {
                Err(e) => Err(e),
                Ok(base) => Ok(index.insert(resources.last().type_@, base)),
            },
        }
    }
}

/// The base URL of the first of `names` that `index` has, if it has any.
pub open spec fn first_present(index: Map<Seq<char>, Seq<char>>, names: Seq<Seq<char>>) -> Option<
    Seq<char>,
>
    decreases names.len(),
{
    if names.len() == 0 {
        None
    } else if index.contains_key(names[0]) {
        Some(index[names[0]])
    } else {
        first_present(index, names.drop_first())
    }
}

/// Once a prefix of the resources fails to give an index, so does the whole.
proof fn lemma_index_error_persists(resources: Seq<ServiceResource>, k: int)
    requires
        0 <= k <= resources.len(),
        resource_index(resources.take(k)) is Err,
    ensures
        resource_index(resources) == resource_index(resources.take(k)),
    decreases resources.len() - k,
{
    if k == resources.len() {
        assert(resources.take(k) =~= resources);
    } else {
        assert(resources.take(k + 1).drop_last() =~= resources.take(k));
        lemma_index_error_persists(resources, k + 1);
    }
}

/// A type that no entry has is not in the mapping.
proof fn lemma_index_map_absent(entries: Seq<Resource>, name: Seq<char>)
    requires
        forall|k: int| 0 <= k < entries.len() ==> (#[trigger] entries[k]).kind@ != name,
    ensures
        !index_map(entries).contains_key(name),
    decreases entries.len(),
{
    if entries.len() > 0 {
        lemma_index_map_absent(entries.drop_last(), name);
    }
}

/// The mapping sends a type to the base URL of the last entry of that type.
proof fn lemma_index_map_last(entries: Seq<Resource>, i: int, name: Seq<char>)
    requires
        0 <= i < entries.len(),
        entries[i].kind@ == name,
        forall|k: int| i < k < entries.len() ==> (#[trigger] entries[k]).kind@ != name,
    ensures
        index_map(entries).contains_key(name),
        index_map(entries)[name] == entries[i].base@,
    decreases entries.len(),
{
    if i < entries.len() - 1 {
        lemma_index_map_last(entries.drop_last(), i, name);
    }
}

/// Where no type occurs twice, giving the entry at `i` another base URL
/// changes the mapping at that entry's type and nowhere else.
proof fn lemma_index_map_update(entries: Seq<Resource>, i: int, changed: Resource)
    requires
        0 <= i < entries.len(),
        distinct_kinds(entries),
        changed.kind@ == entries[i].kind@,
    ensures
        distinct_kinds(entries.update(i, changed)),
        index_map(entries.update(i, changed)) == index_map(entries).insert(
            changed.kind@,
            changed.base@,
        ),
    decreases entries.len(),
{
    let after = entries.update(i, changed);
    if i == entries.len() - 1 {
        assert(after.drop_last() =~= entries.drop_last());
        assert(index_map(after) =~= index_map(entries).insert(changed.kind@, changed.base@));
    } else {
        assert(after.drop_last() =~= entries.drop_last().update(i, changed));
        assert(entries.last().kind@ != entries[i].kind@);
        lemma_index_map_update(entries.drop_last(), i, changed);
        assert(index_map(after) =~= index_map(entries).insert(changed.kind@, changed.base@));
    }
}

impl View for NugetRegistry {
    type V = Map<Seq<char>, Seq<char>>;

    /// Resource type to base URL.
    closed spec fn view(&self) -> Map<Seq<char>, Seq<char>> {
        index_map(self.index@)
    }
}

impl NugetRegistry {
    /// Every value of the type keeps each resource type at most once.
    #[verifier::type_invariant]
    spec fn no_type_twice(self) -> bool {
        distinct_kinds(self.index@)
    }

    /// A registry that offers nothing.
    pub fn new() -> (r: NugetRegistry)
        ensures
            r@ == Map::<Seq<char>, Seq<char>>::empty(),
    {
        NugetRegistry { index: Vec::new() }
    }

    /// Records that the resource of type `resource_type` lives at
    /// `base_url`, in place of whatever was recorded for that type before.
    pub fn insert(&mut self, resource_type: String, base_url: String)
        ensures
            final(self)@ == old(self)@.insert(resource_type@, base_url@),
    {
        proof {
            use_type_invariant(&*self);
        }
        // The entries are taken out while they change: what the registry
        // holds meanwhile is empty, which keeps its invariant.
        let mut entries: Vec<Resource> = Vec::new();
        std::mem::swap(&mut self.index, &mut entries);
        let mut i: usize = 0;
        while i < entries.len()
            invariant
                entries@ == old(self).index@,
                self.index@.len() == 0,
                distinct_kinds(entries@),
                i <= entries.len(),
                forall|k: int| 0 <= k < i ==> (#[trigger] entries@[k]).kind@ != resource_type@,
            decreases entries.len() - i,
        {
            if same_text(entries[i].kind.as_str(), resource_type.as_str()) {
                let changed = Resource { kind: resource_type, base: base_url };
                proof {
                    lemma_index_map_update(entries@, i as int, changed);
                }
                entries.set(i, changed);
                self.index = entries;
                return ;
            }
            i += 1;
        }
        let ghost before = entries@;
        entries.push(Resource { kind: resource_type, base: base_url });
        assert(entries@.drop_last() =~= before);
        self.index = entries;
    }

    /// Builds the registry's resource table from its service index. Fails,
    /// with no table at all, if the `id` of some resource is no URL.
    pub fn connect(index: ServiceIndex) -> (r: Result<NugetRegistry, Error>)
        ensures
            match resource_index(index.resources@) {
                Ok(table) => r matches Ok(registry) && registry@ == table,
                Err(e) => r matches Err(Error::UrlParse(f)) && f == e,
            },
    {
        let mut registry = NugetRegistry::new();
        let mut i: usize = 0;
        while i < index.resources.len()
            invariant
                i <= index.resources.len(),
                resource_index(index.resources@.take(i as int)) == Ok::<
                    Map<Seq<char>, Seq<char>>,
                    url::ParseError,
                >(registry@),
            decreases index.resources.len() - i,
        {
            let resource = &index.resources[i];
            assert(index.resources@.take(i as int + 1).drop_last() =~= index.resources@.take(
                i as int,
            ));
            match parse_url(resource.id.as_str()) {
                Ok(base) => {
                    registry.insert(resource.type_.clone(), base);
                },
                Err(e) => {
                    proof {
                        lemma_index_error_persists(index.resources@, i as int + 1);
                    }
                    return Err(Error::from(e));
                },
            }
            i += 1;
        }
        assert(index.resources@.take(i as int) =~= index.resources@);
        Ok(registry)
    }

    /// The base URL of the resource of type `name`, if the registry has one.
    pub fn try_resource(&self, name: &str) -> (r: Option<&String>)
        ensures
            match r {
                Some(base) => self@.contains_key(name@) && base@ == self@[name@],
                None => !self@.contains_key(name@),
            },
    {
        proof {
            use_type_invariant(self);
        }
        let mut i: usize = 0;
        while i < self.index.len()
            invariant
                distinct_kinds(self.index@),
                i <= self.index.len(),
                forall|k: int| 0 <= k < i ==> (#[trigger] self.index@[k]).kind@ != name@,
            decreases self.index.len() - i,
        {
            if same_text(self.index[i].kind.as_str(), name) {
                proof {
                    lemma_index_map_last(self.index@, i as int, name@);
                }
                return Some(&self.index[i].base);
            }
            i += 1;
        }
        proof {
            lemma_index_map_absent(self.index@, name@);
        }
        None
    }

    /// The base URL of the resource of type `name`; without one, the
    /// operation that asked is unsupported.
    pub fn resource(&self, name: &str) -> (r: Result<&String, Error>)
        ensures
            match r {
                Ok(base) => self@.contains_key(name@) && base@ == self@[name@],
                Err(e) => !self@.contains_key(name@) && (e matches Error::UnsupportedOperation(
                    text,
                ) && text@ == name@),
            },
    {
        match self.try_resource(name) {
            Some(base) => Ok(base),
            None => Err(Error::UnsupportedOperation(name.to_owned())),
        }
    }

    /// The base URL of the first of `names` that the registry has a resource
    /// for. `names` lists the acceptable resource types, the preferred one
    /// first. If the registry has none of them the operation that asked is
    /// unsupported, and the error lists all of `names`, separated by `", "`.
    pub fn resource_arr(&self, names: &[&str]) -> (r: Result<&String, Error>)
        ensures
            match first_present(self@, texts(names@)) {
                Some(url) => r matches Ok(base) && base@ == url,
                None => r matches Err(Error::UnsupportedOperation(text)) && text@ == joined(
                    texts(names@),
                    seq![',', ' '],
                ),
            },
    {
        let mut i: usize = 0;
        assert(texts(names@).skip(0) =~= texts(names@));
        while i < names.len()
            invariant
                i <= names.len(),
                first_present(self@, texts(names@)) == first_present(
                    self@,
                    texts(names@).skip(i as int),
                ),
            decreases names.len() - i,
        {
            let ghost rest = texts(names@).skip(i as int);
            assert(rest.drop_first() =~= texts(names@).skip(i as int + 1));
            if let Some(base) = self.try_resource(names[i]) {
                return Ok(base);
            }
            i += 1;
        }
        proof {
            reveal_strlit(", ");
            assert(", "@ =~= seq![',', ' ']);
        }
        Err(Error::UnsupportedOperation(join(names, ", ")))
    }
}

/// Where all resources of a service index have URLs, the table holds, for
/// each resource that no later one of the same type follows, the URL read
/// from its `id`: of several resources of one type the last counts.
pub proof fn last_resource_of_a_type_counts(resources: Seq<ServiceResource>, i: int)
    requires
        resource_index(resources) is Ok,
        0 <= i < resources.len(),
        forall|k: int| i < k < resources.len() ==> (#[trigger] resources[k]).type_@ != resources[i].type_@,
    ensures
        resource_index(resources)->Ok_0.contains_key(resources[i].type_@),
        url_parse(resources[i].id@) == Ok::<Seq<char>, url::ParseError>(
            resource_index(resources)->Ok_0[resources[i].type_@],
        ),
    decreases resources.len(),
{
    if i < resources.len() - 1 {
        last_resource_of_a_type_counts(resources.drop_last(), i);
    }
}

/// The table of a service index has exactly the resource types that the
/// index lists.
pub proof fn table_has_the_listed_types(resources: Seq<ServiceResource>, name: Seq<char>)
    requires
        resource_index(resources) is Ok,
    ensures
        resource_index(resources)->Ok_0.contains_key(name) <==> exists|i: int|
            0 <= i < resources.len() && (#[trigger] resources[i]).type_@ == name,
    decreases resources.len(),
{
    if resources.len() > 0 {
        let front = resources.drop_last();
        table_has_the_listed_types(front, name);
        if exists|i: int| 0 <= i < resources.len() && (#[trigger] resources[i]).type_@ == name {
            let i = choose|i: int|
                0 <= i < resources.len() && (#[trigger] resources[i]).type_@ == name;
            if i < front.len() {
                assert(front[i].type_@ == name);
            }
        }
        if exists|i: int| 0 <= i < front.len() && (#[trigger] front[i]).type_@ == name {
            let i = choose|i: int| 0 <= i < front.len() && (#[trigger] front[i]).type_@ == name;
            assert(resources[i].type_@ == name);
        }
    }
}

/// Resolution takes the candidates strictly in order: the result is the URL
/// of the candidate at the first position whose type the table has, and
/// there is none exactly when the table has none of the candidates.
pub proof fn first_present_is_first(index: Map<Seq<char>, Seq<char>>, names: Seq<Seq<char>>)
    ensures
        match first_present(index, names) {
            Some(url) => exists|i: int|
                0 <= i < names.len() && index.contains_key(#[trigger] names[i]) && url
                    == index[names[i]] && forall|j: int|
                    0 <= j < i ==> !index.contains_key(#[trigger] names[j]),
            None => forall|i: int| 0 <= i < names.len() ==> !index.contains_key(#[trigger] names[i]),
        },
    decreases names.len(),
{
    if names.len() > 0 {
        if !index.contains_key(names[0]) {
            let rest = names.drop_first();
            first_present_is_first(index, rest);
            match first_present(index, rest) {
                Some(url) => {
                    let i = choose|i: int|
                        0 <= i < rest.len() && index.contains_key(#[trigger] rest[i]) && url
                            == index[rest[i]] && forall|j: int|
                            0 <= j < i ==> !index.contains_key(#[trigger] rest[j]);
                    assert(names[i + 1] == rest[i]);
                    assert forall|j: int| 0 <= j < i + 1 implies !index.contains_key(
                        #[trigger] names[j],
                    ) by {
                        if j > 0 {
                            assert(names[j] == rest[j - 1]);
                        }
                    }
                },
                None => {
                    assert forall|i: int| 0 <= i < names.len() implies !index.contains_key(
                        #[trigger] names[i],
                    ) by {
                        if i > 0 {
                            assert(names[i] == rest[i - 1]);
                        }
                    }
                },
            }
        }
    }
}

} // verus!
