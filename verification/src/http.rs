//! Requests to the open platform, as plain data that the caller sends.
use vstd::prelude::*;

verus! {

#[derive(Debug, Clone, Copy, PartialEq, Eq, Structural)]
pub enum Method {
    Get,
    Post,
}

/// A request: the parameters of its URL, the fields of its form, and the bytes it asks for.
#[derive(Debug, Clone, PartialEq, Eq)]
pub struct HttpRequest {
    pub method: Method,
    pub url: String,
    pub query: Vec<(String, String)>,
    pub form: Vec<(String, String)>,
    pub range: Option<String>,
}

#[verifier::ext_equal]
pub struct HttpRequestView {
    pub method: Method,
    pub url: Seq<char>,
    pub query: Seq<(Seq<char>, Seq<char>)>,
    pub form: Seq<(Seq<char>, Seq<char>)>,
    pub range: Option<Seq<char>>,
}

/// The views of a list of names and values.
pub open spec fn pair_views(pairs: Seq<(String, String)>) -> Seq<(Seq<char>, Seq<char>)> {
    pairs.map_values(|pair: (String, String)| (pair.0@, pair.1@))
}

impl View for HttpRequest {
    type V = HttpRequestView;

    open spec fn view(&self) -> HttpRequestView {
        HttpRequestView {
            method: self.method,
            url: self.url@,
            query: pair_views(self.query@),
            form: pair_views(self.form@),
            range: match self.range {
                Some(range) => Some(range@),
                None => None,
            },
        }
    }
}

/// A request without parameters.
pub open spec fn bare(method: Method, url: Seq<char>) -> HttpRequestView {
    HttpRequestView { method, url, query: Seq::empty(), form: Seq::empty(), range: None }
}

impl HttpRequest {
    pub fn new(method: Method, url: &str) -> (result: HttpRequest)
        ensures
            result@ == bare(method, url@),
    {
        let result = HttpRequest {
            method,
            url: url.to_owned(),
            query: Vec::new(),
            form: Vec::new(),
            range: None,
        };
        assert(result@.query =~= Seq::empty());
        assert(result@.form =~= Seq::empty());
        result
    }

    /// Adds a parameter to the URL.
    pub fn query(self, name: &str, value: &str) -> (result: HttpRequest)
        ensures
            result@ == (HttpRequestView { query: self@.query.push((name@, value@)), ..self@ }),
    {
        let ghost before = self@;
        let mut result = self;
        result.query.push((name.to_owned(), value.to_owned()));
        assert(result@.query =~= before.query.push((name@, value@)));
        result
    }

    /// Adds a field to the form.
    pub fn form(self, name: &str, value: &str) -> (result: HttpRequest)
        ensures
            result@ == (HttpRequestView { form: self@.form.push((name@, value@)), ..self@ }),
    {
        let ghost before = self@;
        let mut result = self;
        result.form.push((name.to_owned(), value.to_owned()));
        assert(result@.form =~= before.form.push((name@, value@)));
        result
    }

    /// Asks for a range of the bytes.
    pub fn range(self, range: &str) -> (result: HttpRequest)
        ensures
            result@ == (HttpRequestView { range: Some(range@), ..self@ }),
    {
        HttpRequest { range: Some(range.to_owned()), ..self }
    }
}

} // verus!
