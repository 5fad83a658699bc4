use vstd::prelude::*;

verus! {

/// What a host-meta value stands for.
#[derive(Clone, Copy, Debug, PartialEq, Eq, Hash, Structural)]
pub enum HostMetaKind {
    /// The service answered, or is taken to answer, with nothing of use.
    Empty,
    /// Nothing is known yet; the service has to be asked again.
    Invalid,
    /// A document that a service delivered.
    Document,
}

/// The discovery document of one service, carried as received. The library
/// never reads `content`; it only tells the three kinds apart and records the
/// base URL that the document's links are to be resolved against.
#[derive(Debug, PartialEq, Eq, Hash)]
pub struct WebHostMeta {
    kind: HostMetaKind,
    content: String,
    base_url: Option<String>,
}

pub struct WebHostMetaView {
    pub kind: HostMetaKind,
    pub content: Seq<char>,
    pub base_url: Option<Seq<char>>,
}

impl View for WebHostMeta {
    type V = WebHostMetaView;

    closed spec fn view(&self) -> WebHostMetaView {
        WebHostMetaView {
            kind: self.kind,
            content: self.content@,
            base_url: match self.base_url {
                Some(url) => Some(url@),
                None => None,
            },
        }
    }
}

impl DeepView for WebHostMeta {
    type V = WebHostMetaView;

    open spec fn deep_view(&self) -> WebHostMetaView {
        self@
    }
}

impl WebHostMetaView {
    pub open spec fn empty() -> WebHostMetaView {
        WebHostMetaView { kind: HostMetaKind::Empty, content: Seq::empty(), base_url: None }
    }

    pub open spec fn invalid() -> WebHostMetaView {
        WebHostMetaView { kind: HostMetaKind::Invalid, content: Seq::empty(), base_url: None }
    }

    /// A received document; one without content counts as empty.
    pub open spec fn document(content: Seq<char>) -> WebHostMetaView {
        if content.len() == 0 {
            Self::empty()
        } else {
            WebHostMetaView { kind: HostMetaKind::Document, content, base_url: None }
        }
    }

    pub open spec fn is_valid(self) -> bool {
        self.kind == HostMetaKind::Document
    }

    pub open spec fn is_empty(self) -> bool {
        self.kind == HostMetaKind::Empty
    }

    /// The same document, to be read relative to `base_url`. The two
    /// placeholders have no links and stay as they are.
    pub open spec fn with_base_url(self, base_url: Seq<char>) -> WebHostMetaView {
        if self.kind == HostMetaKind::Document {
            WebHostMetaView { base_url: Some(base_url), ..self }
        } else {
            self
        }
    }
}

/// To apply a base URL a second time changes nothing.
pub proof fn lemma_with_base_url_is_idempotent(meta: WebHostMetaView, base_url: Seq<char>)
    ensures
        meta.with_base_url(base_url).with_base_url(base_url) == meta.with_base_url(base_url),
{
}

impl WebHostMeta {
    pub fn empty() -> (meta: WebHostMeta)
        ensures
            meta@ == WebHostMetaView::empty(),
    {
        WebHostMeta { kind: HostMetaKind::Empty, content: String::new(), base_url: None }
    }

    pub fn invalid() -> (meta: WebHostMeta)
        ensures
            meta@ == WebHostMetaView::invalid(),
    {
        WebHostMeta { kind: HostMetaKind::Invalid, content: String::new(), base_url: None }
    }

    pub fn document(content: String) -> (meta: WebHostMeta)
        ensures
            meta@ == WebHostMetaView::document(content@),
    {
        if content.as_str().is_empty() {
            WebHostMeta::empty()
        } else {
            WebHostMeta { kind: HostMetaKind::Document, content, base_url: None }
        }
    }

    pub fn is_valid(&self) -> (b: bool)
        ensures
            b == self@.is_valid(),
    {
        self.kind == HostMetaKind::Document
    }

    pub fn is_empty(&self) -> (b: bool)
        ensures
            b == self@.is_empty(),
    {
        self.kind == HostMetaKind::Empty
    }

    pub fn kind(&self) -> (kind: HostMetaKind)
        ensures
            kind == self@.kind,
    {
        self.kind
    }

    pub fn content(&self) -> (content: &String)
        ensures
            content@ == self@.content,
    {
        &self.content
    }

    pub fn base_url(&self) -> (url: Option<&String>)
        ensures
            url.deep_view() == self@.base_url,
    {
        self.base_url.as_ref()
    }

    pub fn with_base_url(&self, base_url: &String) -> (meta: WebHostMeta)
        ensures
            meta@ == self@.with_base_url(base_url@),
    {
        if self.kind == HostMetaKind::Document {
            WebHostMeta {
                kind: self.kind,
                content: self.content.clone(),
                base_url: Some(base_url.clone()),
            }
        } else {
            self.clone()
        }
    }
}

impl Clone for WebHostMeta {
    fn clone(&self) -> (copy: WebHostMeta)
        ensures
            copy@ == self@,
    {
        WebHostMeta {
            kind: self.kind,
            content: self.content.clone(),
            base_url: match &self.base_url {
                Some(url) => Some(url.clone()),
                None => None,
            },
        }
    }
}

} // verus!
