use crate::address::{join_url, url_join};
use crate::err::Error;
use crate::first_present;
use crate::model::PackageMetadata;
use crate::ops::{index_path, package_index_path};
use crate::text::joined;
use crate::NugetRegistry;
use vstd::prelude::*;
use vstd::string::*;

verus! {

/// The registration index of a package: its pages, in the registry's order.
#[derive(Debug, Clone)]
pub struct RootResponse {
    pub count: usize,
    pub items: Vec<RegistrationPage>,
}

/// One page of a registration index. Its leaves are either inlined in
/// `items` or to be fetched from `id`.
#[derive(Debug, Clone)]
pub struct RegistrationPage {
    pub id: String,
    pub count: usize,
    pub items: Option<Vec<RegistrationLeaf>>,
    pub parent: Option<String>,
    pub lower: Option<String>,
    pub upper: Option<String>,
}

/// The record of one version of a package.
#[derive(Debug, Clone)]
pub struct RegistrationLeaf {
    pub id: String,
    pub catalog_entry: PackageMetadata,
    pub package_content: String,
}

/// The resource types that serve registrations, the preferred one first.
pub open spec fn resource_types() -> Seq<Seq<char>> {
    seq![
        "RegistrationsBaseUrl/3.6.0"@,
        "RegistrationsBaseUrl/3.4.0"@,
        "RegistrationsBaseUrl/3.0.0-rc"@,
        "RegistrationsBaseUrl/3.0.0-beta"@,
        "RegistrationsBaseUrl/3.0.0"@,
    ]
}

/// The URL of the registration index of `package_name`: the package's index
/// path joined to the base URL of the first registrations resource that the
/// registry has. Unsupported if it has none.
pub fn request_url(nuget: &NugetRegistry, package_name: &str) -> (r: Result<String, Error>)
    ensures
        match first_present(nuget@, resource_types()) {
            Some(base) => match url_join(base, index_path(package_name@)) {
                Ok(url) => r matches Ok(text) && text@ == url,
                Err(e) => r matches Err(Error::UrlParse(f)) && f == e,
            },
            None => r matches Err(Error::UnsupportedOperation(text)) && text@ == joined(
                resource_types(),
                seq![',', ' '],
            ),
        },
{
    let names: [&str; 5] = [
        "RegistrationsBaseUrl/3.6.0",
        "RegistrationsBaseUrl/3.4.0",
        "RegistrationsBaseUrl/3.0.0-rc",
        "RegistrationsBaseUrl/3.0.0-beta",
        "RegistrationsBaseUrl/3.0.0",
    ];
    let names = vstd::array::array_as_slice(&names);
    assert(crate::text::texts(names@) =~= resource_types());
    let base = match nuget.resource_arr(names) {
        Ok(base) => base,
        Err(e) => {
            return Err(e);
        },
    };
    let path = package_index_path(package_name);
    match join_url(base.as_str(), path.as_str()) {
        Ok(url) => Ok(url),
        Err(e) => Err(Error::from(e)),
    }
}

/// What a page of the index has of its leaves.
#[derive(Debug)]
pub enum PageContent {
    /// The leaves themselves.
    Inline(Vec<RegistrationLeaf>),
    /// The URL of the document that holds them.
    FollowUp(String),
}

/// The text of the error for a fetched page that brings no leaves.
pub open spec fn missing_items() -> Seq<char> {
    "registration page has no items"@
}

/// How the outcome of fetching a page's document resolves to leaves: a
/// failure stays what it is; a page brings its inlined leaves; a page
/// without any breaks the protocol, which is a decoding error.
pub open spec fn resolves_to(
    outcome: Result<RegistrationPage, Error>,
    resolved: Result<Vec<RegistrationLeaf>, Error>,
) -> bool {
    match outcome {
        Err(e) => resolved == Err::<Vec<RegistrationLeaf>, Error>(e),
        Ok(page) => match page.items {
            Some(items) => resolved == Ok::<Vec<RegistrationLeaf>, Error>(items),
            None => resolved matches Err(Error::Json(text)) && text@ == missing_items(),
        },
    }
}

impl RegistrationPage {
    /// The leaves of the page if it inlines them, else the URL to fetch them
    /// from, which is the page's `id`.
    pub fn content(self) -> (r: PageContent)
        ensures
            r == match self.items {
                Some(items) => PageContent::Inline(items),
                None => PageContent::FollowUp(self.id),
            },
    {
        match self.items {
            Some(items) => PageContent::Inline(items),
            None => PageContent::FollowUp(self.id),
        }
    }
}

/// Resolves the outcome of fetching a page's document to the page's leaves.
pub fn fetched_leaves(outcome: Result<RegistrationPage, Error>) -> (r: Result<
    Vec<RegistrationLeaf>,
    Error,
>)
    ensures
        resolves_to(outcome, r),
{
    match outcome {
        Err(e) => Err(e),
        Ok(page) => match page.items {
            Some(items) => Ok(items),
            None => Err(Error::Json("registration page has no items".to_owned())),
        },
    }
}

/// One element of the sequence of registrations: a leaf, or the failure of
/// the page that should have brought leaves.
pub type Registration = Result<RegistrationLeaf, Error>;

/// What the sequence of registrations does next.
#[derive(Debug)]
pub enum StreamStep {
    /// Its next element.
    Item(Registration),
    /// Nothing, before the document at this URL has been fetched and its
    /// outcome supplied.
    Fetch(String),
    /// Nothing more: the sequence has ended.
    Done,
}

/// The state of a sequence of registrations, as mathematics.
///
/// While `ready` holds elements the sequence is handing out the current
/// page: its leaves, or the one error that stands for it. With nothing ready
/// it is between pages: waiting for the document named in `awaiting`, or
/// about to look at the first of `pages`. With nothing ready, nothing
/// awaited and no page left it is exhausted.
pub struct StreamState {
    /// The pages not yet looked at, in the order of the index.
    pub pages: Seq<RegistrationPage>,
    /// The elements of the current page not yet handed out, in order.
    pub ready: Seq<Registration>,
    /// The URL of the page whose document is being waited for, if any.
    pub awaiting: Option<String>,
}

/// Each leaf as an element of the sequence.
pub open spec fn as_items(leaves: Seq<RegistrationLeaf>) -> Seq<Registration> {
    Seq::new(leaves.len(), |i: int| Ok(leaves[i]))
}

/// The elements that a resolved page contributes: its leaves in order, or
/// its failure as one element.
pub open spec fn resolved_items(resolved: Result<Vec<RegistrationLeaf>, Error>) -> Seq<
    Registration,
> {
    match resolved {
        Ok(leaves) => as_items(leaves@),
        Err(e) => seq![Err(e)],
    }
}

/// The state in which a sequence over the pages of an index starts.
pub open spec fn initial_state(pages: Seq<RegistrationPage>) -> StreamState {
    StreamState { pages, ready: Seq::empty(), awaiting: None }
}

/// One pull: the state after it, and what it gave. Elements that are ready
/// go first. A fetch that is awaited is asked for again. Otherwise the next
/// page is looked at: if it inlines its leaves they become ready and the
/// pull goes on (a page without leaves gives nothing); if not, its document
/// is asked for. With no page left, the sequence has ended.
pub open spec fn poll_spec(st: StreamState) -> (StreamState, StreamStep)
    decreases st.pages.len(),
{
    if st.ready.len() > 0 {
        (
            StreamState { pages: st.pages, ready: st.ready.drop_first(), awaiting: st.awaiting },
            StreamStep::Item(st.ready[0]),
        )
    } else if st.awaiting is Some {
        (st, StreamStep::Fetch(st.awaiting->0))
    } else if st.pages.len() == 0 {
        (st, StreamStep::Done)
    } else {
        match st.pages[0].items {
            Some(items) => poll_spec(
                StreamState {
                    pages: st.pages.drop_first(),
                    ready: as_items(items@),
                    awaiting: None,
                },
            ),
            None => (
                StreamState {
                    pages: st.pages.drop_first(),
                    ready: Seq::empty(),
                    awaiting: Some(st.pages[0].id),
                },
                StreamStep::Fetch(st.pages[0].id),
            ),
        }
    }
}

/// The state after the outcome of the awaited fetch has arrived: what the
/// page resolved to becomes ready, and nothing is awaited any more. Without
/// an awaited fetch the outcome is dropped.
pub open spec fn supply_spec(
    st: StreamState,
    resolved: Result<Vec<RegistrationLeaf>, Error>,
) -> StreamState {
    if st.awaiting is Some {
        StreamState {
            pages: st.pages,
            ready: st.ready + resolved_items(resolved),
            awaiting: None,
        }
    } else {
        st
    }
}

/// The lazily assembled sequence of the registrations of a package: the
/// leaves of all pages of its index, page after page, each page's leaves in
/// the page's order. A page that fails contributes one error and the
/// sequence goes on with the next page.
///
/// The sequence itself performs no request. `poll` says what comes next;
/// when that is a fetch, the caller performs it and hands the outcome to
/// `supply`.
pub struct RegistrationStream {
    /// The pages not yet looked at, the next one last.
    pages: Vec<RegistrationPage>,
    /// The elements that are ready, the next one last.
    queue: Vec<Registration>,
    awaiting: Option<String>,
}

/// The elements of `v` in the opposite order.
fn reversed<T>(v: Vec<T>) -> (r: Vec<T>)
    ensures
        r@ == v@.reverse(),
{
    let mut v = v;
    let ghost all = v@;
    let mut out: Vec<T> = Vec::with_capacity(v.len());
    while v.len() > 0
        invariant
            v@.len() + out@.len() == all.len(),
            v@ == all.subrange(0, v@.len() as int),
            forall|k: int| 0 <= k < out@.len() ==> out@[k] == all[all.len() - 1 - k],
        decreases v.len(),
    {
        let last = v.pop().unwrap();
        out.push(last);
    }
    out
}

/// The leaves of a page as elements, the first leaf last.
fn queued(leaves: Vec<RegistrationLeaf>) -> (r: Vec<Registration>)
    ensures
        r@.reverse() == as_items(leaves@),
{
    let mut leaves = leaves;
    let ghost all = leaves@;
    let mut out: Vec<Registration> = Vec::with_capacity(leaves.len());
    while leaves.len() > 0
        invariant
            leaves@.len() + out@.len() == all.len(),
            leaves@ == all.subrange(0, leaves@.len() as int),
            forall|k: int|
                0 <= k < out@.len() ==> out@[k] == Ok::<RegistrationLeaf, Error>(
                    all[all.len() - 1 - k],
                ),
        decreases leaves.len(),
    {
        let last = leaves.pop().unwrap();
        out.push(Ok(last));
    }
    out
}

impl View for RegistrationStream {
    type V = StreamState;

    closed spec fn view(&self) -> StreamState {
        StreamState {
            pages: self.pages@.reverse(),
            ready: self.queue@.reverse(),
            awaiting: self.awaiting,
        }
    }
}

impl RegistrationStream {
    /// The sequence over the pages of `index`, before its first element.
    pub fn new(index: RootResponse) -> (r: RegistrationStream)
        ensures
            r@ == initial_state(index.items@),
    {
        let ghost pages = index.items@;
        let stream = RegistrationStream {
            pages: reversed(index.items),
            queue: Vec::new(),
            awaiting: None,
        };
        assert(stream.pages@.reverse() =~= pages);
        stream
    }

    /// One pull from the sequence.
    pub fn poll(&mut self) -> (step: StreamStep)
        ensures
            (final(self)@, step) == poll_spec(old(self)@),
    {
        loop
            invariant
                poll_spec(self@) == poll_spec(old(self)@),
            decreases self.pages@.len(),
        {
            let ghost before = self@;
            if self.queue.len() > 0 {
                let item = self.queue.pop().unwrap();
                assert(self@.ready =~= before.ready.drop_first());
                return StreamStep::Item(item);
            }
            if let Some(url) = &self.awaiting {
                return StreamStep::Fetch(url.clone());
            }
            if self.pages.len() == 0 {
                return StreamStep::Done;
            }
            let page = self.pages.pop().unwrap();
            assert(self.pages@.reverse() =~= before.pages.drop_first());
            match page.content() {
                PageContent::Inline(leaves) => {
                    self.queue = queued(leaves);
                },
                PageContent::FollowUp(url) => {
                    self.awaiting = Some(url.clone());
                    return StreamStep::Fetch(url);
                },
            }
        }
    }

    /// Takes the outcome of the fetch that the sequence waits for.
    pub fn supply(&mut self, resolved: Result<Vec<RegistrationLeaf>, Error>)
        ensures
            final(self)@ == supply_spec(old(self)@, resolved),
    {
        if self.awaiting.is_none() {
            return ;
        }
        self.awaiting = None;
        let mut fresh: Vec<Registration> = match resolved {
            Ok(leaves) => queued(leaves),
            Err(e) => {
                let mut one: Vec<Registration> = Vec::new();
                one.push(Err(e));
                one
            },
        };
        assert(fresh@.reverse() =~= resolved_items(resolved));
        let ghost fresh_items = fresh@;
        let ghost old_queue = self.queue@;
        fresh.append(&mut self.queue);
        self.queue = fresh;
        assert(self.queue@.reverse() =~= old_queue.reverse() + fresh_items.reverse());
    }
}

} // verus!
