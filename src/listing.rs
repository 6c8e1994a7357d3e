use vstd::prelude::*;

use crate::utils::concat_all;

verus! {

/// One page of a bucket listing, as the backend returned it.
pub struct ListPage {
    /// The key of each object entry; an entry may come without one.
    pub keys: Vec<Option<String>>,
    pub is_truncated: Option<bool>,
    pub next_continuation_token: Option<String>,
}

/// Why a listing stopped early.
#[derive(Debug, PartialEq, Eq, Structural)]
pub enum ListingError {
    /// A page said that more follow but gave no token to fetch them.
    MissingContinuationToken,
    /// The backend refused a listing request.
    RequestFailed,
}

/// The keys of the entries that have one, in order.
pub open spec fn present_keys(keys: Seq<Option<String>>) -> Seq<Seq<char>>
    decreases keys.len(),
{
    if keys.len() == 0 {
        Seq::empty()
    } else {
        present_keys(keys.drop_last()) + match keys.last() {
            Some(k) => seq![k@],
            None => Seq::empty(),
        }
    }
}

/// The views of a sequence of strings.
pub open spec fn string_views(v: Seq<String>) -> Seq<Seq<char>> {
    v.map_values(|s: String| s@)
}

/// Whether a page says that another follows.
pub open spec fn page_truncated(page: ListPage) -> bool {
    page.is_truncated == Some(true)
}

/// Walks a paginated listing: says which page to fetch next and takes each
/// page's entries as they come.
pub struct Lister {
    token: Option<String>,
    done: bool,
    error: Option<ListingError>,
    pages: Ghost<Seq<Seq<Seq<char>>>>,
    yielded: Ghost<Seq<Seq<char>>>,
}

impl Lister {
    /// The keys of each page taken so far, page by page.
    pub closed spec fn pages(&self) -> Seq<Seq<Seq<char>>> {
        self.pages@
    }

    /// Every key handed out so far, in order.
    pub closed spec fn yielded(&self) -> Seq<Seq<char>> {
        self.yielded@
    }

    /// No page is left to fetch.
    pub closed spec fn is_done(&self) -> bool {
        self.done
    }

    /// The reason the listing stopped early, if it did.
    pub closed spec fn error(&self) -> Option<ListingError> {
        self.error
    }

    /// The continuation token for the next request.
    pub closed spec fn token(&self) -> Option<String> {
        self.token
    }

    pub closed spec fn wf(&self) -> bool {
        &&& self.yielded@ == concat_all(self.pages@)
        &&& self.error is Some ==> self.done
    }

    pub fn new() -> (r: Lister)
        ensures
            r.wf(),
            !r.is_done(),
            r.error() is None,
            r.token() is None,
            r.pages() == Seq::<Seq<Seq<char>>>::empty(),
            r.yielded() == Seq::<Seq<char>>::empty(),
    {
        Lister {
            token: None,
            done: false,
            error: None,
            pages: Ghost(Seq::empty()),
            yielded: Ghost(Seq::empty()),
        }
    }

    /// The request to issue next: `None` once the listing is over, else the
    /// continuation token to send (none for the first page).
    pub fn next_request(&self) -> (r: Option<Option<String>>)
        ensures
            r is None <==> self.is_done(),
            r matches Some(t) ==> t == self.token(),
    {
        if self.done {
            None
        } else {
            Some(self.token.clone())
        }
    }

    /// Whether the listing is over.
    pub fn done(&self) -> (r: bool)
        ensures
            r == self.is_done(),
    {
        self.done
    }

    /// Why the listing stopped early, if it did.
    pub fn failure(&self) -> (r: Option<ListingError>)
        ensures
            r == self.error(),
    {
        match self.error {
            Some(ListingError::MissingContinuationToken) => Some(ListingError::MissingContinuationToken),
            Some(ListingError::RequestFailed) => Some(ListingError::RequestFailed),
            None => None,
        }
    }

    /// Ends the listing after a failed request; what was handed out stands.
    pub fn abandon(&mut self)
        requires
            old(self).wf(),
            !old(self).is_done(),
        ensures
            final(self).wf(),
            final(self).is_done(),
            final(self).error() == Some(ListingError::RequestFailed),
            final(self).pages() == old(self).pages(),
            final(self).yielded() == old(self).yielded(),
    {
        self.done = true;
        self.error = Some(ListingError::RequestFailed);
    }

    /// Takes a fetched page and returns the keys to hand on, in page order.
    /// The listing goes on while pages are truncated; a truncated page with
    /// no continuation token ends it with an error. An empty page changes
    /// nothing but the position.
    pub fn accept_page(&mut self, page: ListPage) -> (r: Vec<String>)
        requires
            old(self).wf(),
            !old(self).is_done(),
        ensures
            final(self).wf(),
            string_views(r@) == present_keys(page.keys@),
            r@.len() <= page.keys@.len(),
            final(self).pages() == old(self).pages().push(present_keys(page.keys@)),
            final(self).yielded() == old(self).yielded() + string_views(r@),
            final(self).is_done() == !(page_truncated(page) && page.next_continuation_token is Some),
            final(self).error() == (if page_truncated(page) && page.next_continuation_token is None {
                Some(ListingError::MissingContinuationToken)
            } else {
                None
            }),
            !final(self).is_done() ==> final(self).token() == page.next_continuation_token,
    {
        let mut out: Vec<String> = Vec::new();
        let mut i: usize = 0;
        let n = page.keys.len();
        while i < n
            invariant
                n == page.keys@.len(),
                i <= n,
                string_views(out@) == present_keys(page.keys@.subrange(0, i as int)),
                out@.len() <= i,
            decreases n - i,
        {
            let ghost before = out@;
            match &page.keys[i] {
                Some(k) => {
                    out.push(k.clone());
                },
                None => {},
            }
            i = i + 1;
            proof {
                let sub = page.keys@.subrange(0, i as int);
                assert(sub.drop_last() =~= page.keys@.subrange(0, i - 1));
                assert(string_views(out@) =~= present_keys(sub));
            }
        }
        proof {
            assert(page.keys@.subrange(0, n as int) =~= page.keys@);
            let p = present_keys(page.keys@);
            let pages = self.pages@.push(p);
            assert(pages.drop_last() =~= self.pages@);
            self.pages@ = pages;
            self.yielded@ = self.yielded@ + p;
        }
        let truncated = match page.is_truncated {
            Some(t) => t,
            None => false,
        };
        if truncated {
            match page.next_continuation_token {
                Some(t) => {
                    self.token = Some(t);
                    self.done = false;
                },
                None => {
                    self.token = None;
                    self.done = true;
                    self.error = Some(ListingError::MissingContinuationToken);
                },
            }
        } else {
            self.done = true;
            self.error = None;
        }
        out
    }
}

/// Over a whole listing, the keys handed out are every page's keys, each
/// once, in page order: page boundaries and empty pages make no difference.
pub proof fn lemma_listing_yields_every_page(l: &Lister)
    requires
        l.wf(),
    ensures
        l.yielded() == concat_all(l.pages()),
{
}

/// An empty page adds no key to the listing.
pub proof fn lemma_empty_page_adds_nothing(pages: Seq<Seq<Seq<char>>>)
    ensures
        concat_all(pages.push(Seq::empty())) == concat_all(pages),
{
    assert(pages.push(Seq::<Seq<char>>::empty()).drop_last() =~= pages);
    assert(concat_all(pages) + Seq::<Seq<char>>::empty() =~= concat_all(pages));
}

} // verus!
