//! Cross-origin resource sharing.

use crate::http::{
    allow_headers_from, allow_methods_from, expose_headers_from, is_header_name, is_header_value,
    is_method, is_stored_name, is_visible, lemma_lowered_is_stored, lowered, method_from_bytes,
    name_from_bytes, value_from_bytes, value_from_i32, value_to_str, views,
};
use vstd::prelude::*;
use vstd::string::StringSliceAdditionalSpecFns;

verus! {

/// A question put to the application about an origin that no list holds.
pub trait OriginPredicate {
    /// Whether the predicate may be asked at all.
    spec fn callable(&self) -> bool;

    /// The answers the predicate may give: `allowed` for `origin`. Each
    /// implementation says what its own answers are.
    spec fn verdict(&self, origin: Seq<char>, allowed: bool) -> bool;

    /// Asks whether `origin` is allowed.
    fn allows(&self, origin: &str) -> (allowed: bool)
        requires
            self.callable(),
        ensures
            self.verdict(origin@, allowed),
    ;
}

/// The predicate of a middleware that was given none. It is never asked.
pub struct NoPredicate;

impl OriginPredicate for NoPredicate {
    open spec fn callable(&self) -> bool {
        true
    }

    open spec fn verdict(&self, origin: Seq<char>, allowed: bool) -> bool {
        !allowed
    }

    fn allows(&self, origin: &str) -> (allowed: bool) {
        false
    }
}

/// A closure taken as an [`OriginPredicate`].
pub struct FnPredicate<F> {
    f: F,
}

impl<F: Fn(&str) -> bool> FnPredicate<F> {
    /// The closure that is asked.
    pub closed spec fn inner(self) -> F {
        self.f
    }

    /// Wraps `f`.
    pub fn new(f: F) -> (p: Self)
        ensures
            p.inner() == f,
    {
        FnPredicate { f }
    }
}

impl<F: Fn(&str) -> bool> OriginPredicate for FnPredicate<F> {
    open spec fn callable(&self) -> bool {
        forall|s: &str| call_requires(self.inner(), (s,))
    }

    open spec fn verdict(&self, origin: Seq<char>, allowed: bool) -> bool {
        exists|s: &str| s@ == origin && call_ensures(self.inner(), (s,), allowed)
    }

    fn allows(&self, origin: &str) -> (allowed: bool) {
        (self.f)(origin)
    }
}

/// What a CORS middleware was told, as plain values. The lists hold each
/// item once, in the order in which the items first came.
pub struct Rules {
    pub allow_credentials: bool,
    pub allow_origins: Seq<Seq<u8>>,
    pub allow_headers: Seq<Seq<u8>>,
    pub allow_methods: Seq<Seq<u8>>,
    pub expose_headers: Seq<Seq<u8>>,
    pub max_age: i32,
}

impl Rules {
    /// Whether every list holds accepted items, each of them once.
    pub open spec fn wf(self) -> bool {
        &&& self.allow_origins.no_duplicates()
        &&& self.allow_headers.no_duplicates()
        &&& self.allow_methods.no_duplicates()
        &&& self.expose_headers.no_duplicates()
        &&& forall|i: int|
            0 <= i < self.allow_origins.len() ==> is_header_value(#[trigger] self.allow_origins[i])
        &&& forall|i: int|
            0 <= i < self.allow_headers.len() ==> is_stored_name(#[trigger] self.allow_headers[i])
        &&& forall|i: int|
            0 <= i < self.allow_methods.len() ==> is_method(#[trigger] self.allow_methods[i])
        &&& forall|i: int|
            0 <= i < self.expose_headers.len() ==> is_stored_name(
                #[trigger] self.expose_headers[i],
            )
    }

    /// The rules of a middleware that was told nothing yet.
    pub open spec fn initial() -> Rules {
        Rules {
            allow_credentials: false,
            allow_origins: Seq::empty(),
            allow_headers: Seq::empty(),
            allow_methods: Seq::empty(),
            expose_headers: Seq::empty(),
            max_age: 86400,
        }
    }
}

/// `list` with `item` added, unless it holds `item` already.
pub open spec fn inserted(list: Seq<Seq<u8>>, item: Seq<u8>) -> Seq<Seq<u8>> {
    if list.contains(item) {
        list
    } else {
        list.push(item)
    }
}

/// `list` with the first `n` of `items` added one after the other.
pub open spec fn inserted_all(list: Seq<Seq<u8>>, items: Seq<Seq<u8>>, n: nat) -> Seq<Seq<u8>>
    decreases n,
{
    if n == 0 {
        list
    } else {
        inserted(inserted_all(list, items, (n - 1) as nat), items[n - 1])
    }
}

/// Whether `a` and `b` hold the same bytes.
fn same_bytes(a: &Vec<u8>, b: &[u8]) -> (same: bool)
    ensures
        same == (a@ == b@),
{
    if a.len() != b.len() {
        return false;
    }
    let mut i: usize = 0;
    while i < a.len()
        invariant
            i <= a.len(),
            a.len() == b.len(),
            forall|j: int| 0 <= j < i ==> a@[j] == b@[j],
        decreases a.len() - i,
    {
        if a[i] != b[i] {
            return false;
        }
        i += 1;
    }
    assert(a@ =~= b@);
    true
}

/// Whether `list` holds `item`.
fn holds(list: &Vec<Vec<u8>>, item: &[u8]) -> (found: bool)
    ensures
        found == views(list@).contains(item@),
{
    let mut i: usize = 0;
    while i < list.len()
        invariant
            i <= list.len(),
            forall|j: int| 0 <= j < i ==> views(list@)[j] != item@,
        decreases list.len() - i,
    {
        if same_bytes(&list[i], item) {
            assert(views(list@)[i as int] == item@);
            return true;
        }
        i += 1;
    }
    false
}

/// Adds `item` to `list` unless it is there already.
fn insert(list: &mut Vec<Vec<u8>>, item: Vec<u8>)
    ensures
        views(final(list)@) == inserted(views(old(list)@), item@),
{
    if !holds(list, item.as_slice()) {
        list.push(item);
        assert(views(list@) =~= views(old(list)@).push(item@));
    }
}

/// What `inserted` keeps: no item twice, and whatever held of every item
/// before and holds of the new one.
proof fn lemma_inserted(list: Seq<Seq<u8>>, item: Seq<u8>)
    requires
        list.no_duplicates(),
    ensures
        inserted(list, item).no_duplicates(),
        inserted(list, item).contains(item),
        forall|x: Seq<u8>| list.contains(x) ==> inserted(list, item).contains(x),
        forall|i: int|
            0 <= i < inserted(list, item).len() ==> list.contains(
                #[trigger] inserted(list, item)[i],
            ) || inserted(list, item)[i] == item,
{
    let r = inserted(list, item);
    if !list.contains(item) {
        assert forall|x: Seq<u8>| list.contains(x) implies r.contains(x) by {
            let i = choose|i: int| 0 <= i < list.len() && list[i] == x;
            assert(r[i] == x);
        }
        assert(r[list.len() as int] == item);
        assert forall|i: int| 0 <= i < r.len() implies list.contains(#[trigger] r[i]) || r[i]
            == item by {
            if i < list.len() {
                assert(list[i] == r[i]);
            }
        }
    } else {
        assert forall|i: int| 0 <= i < r.len() implies list.contains(#[trigger] r[i]) || r[i]
            == item by {
            assert(list[i] == r[i]);
        }
    }
}

/// Middleware for CORS
///
/// # Example
///
/// ```ignore
/// let cors = Cors::new()
///     .allow_method("GET")
///     .allow_method("POST")
///     .allow_credentials(false);
/// ```
pub struct Cors<P = NoPredicate> {
    allow_credentials: bool,
    allow_origins: Vec<Vec<u8>>,
    allow_origins_fn: Option<P>,
    allow_headers: Vec<Vec<u8>>,
    allow_methods: Vec<Vec<u8>>,
    expose_headers: Vec<Vec<u8>>,
    max_age: i32,
}

impl<P> View for Cors<P> {
    type V = Rules;

    closed spec fn view(&self) -> Rules {
        Rules {
            allow_credentials: self.allow_credentials,
            allow_origins: views(self.allow_origins@),
            allow_headers: views(self.allow_headers@),
            allow_methods: views(self.allow_methods@),
            expose_headers: views(self.expose_headers@),
            max_age: self.max_age,
        }
    }
}

impl Cors<NoPredicate> {
    /// Creates a new `CORS` middleware.
    #[must_use]
    pub fn new() -> (cors: Self)
        ensures
            cors@ == Rules::initial(),
            cors.predicate() is None,
            cors.wf(),
    {
        let cors = Cors {
            allow_credentials: false,
            allow_origins: Vec::new(),
            allow_origins_fn: None,
            allow_headers: Vec::new(),
            allow_methods: Vec::new(),
            expose_headers: Vec::new(),
            max_age: 86400,
        };
        assert(cors@.allow_origins =~= Seq::empty());
        assert(cors@.allow_headers =~= Seq::empty());
        assert(cors@.allow_methods =~= Seq::empty());
        assert(cors@.expose_headers =~= Seq::empty());
        cors
    }
}

impl<P: OriginPredicate> Cors<P> {
    /// The question that is put about origins that the list does not hold,
    /// if there is one.
    pub closed spec fn predicate(self) -> Option<P> {
        self.allow_origins_fn
    }

    /// Whether the lists are in order and the predicate may be asked.
    pub open spec fn wf(self) -> bool {
        &&& self@.wf()
        &&& self.predicate() matches Some(p) ==> p.callable()
    }

    /// Set allow credentials.
    #[must_use]
    pub fn allow_credentials(self, allow_credentials: bool) -> (cors: Self)
        ensures
            cors@ == (Rules { allow_credentials, ..self@ }),
            cors.predicate() == self.predicate(),
            self.wf() ==> cors.wf(),
    {
        let mut cors = self;
        cors.allow_credentials = allow_credentials;
        cors
    }

    /// Add an allow header.
    ///
    /// NOTE: Default is allow any header.
    #[must_use]
    pub fn allow_header(self, header: &str) -> (cors: Self)
        requires
            self.wf(),
            is_header_name(header.spec_bytes()),
        ensures
            cors@ == (Rules {
                allow_headers: inserted(self@.allow_headers, lowered(header.spec_bytes())),
                ..self@
            }),
            cors.predicate() == self.predicate(),
            cors.wf(),
    {
        let mut cors = self;
        let name = name_from_bytes(header.as_bytes());
        proof {
            lemma_lowered_is_stored(header.spec_bytes());
            lemma_inserted(self@.allow_headers, lowered(header.spec_bytes()));
        }
        insert(&mut cors.allow_headers, name.unwrap());
        cors
    }

    /// Add an allow method.
    ///
    /// NOTE: Default is allow any method.
    #[must_use]
    pub fn allow_method(self, method: &str) -> (cors: Self)
        requires
            self.wf(),
            is_method(method.spec_bytes()),
        ensures
            cors@ == (Rules {
                allow_methods: inserted(self@.allow_methods, method.spec_bytes()),
                ..self@
            }),
            cors.predicate() == self.predicate(),
            cors.wf(),
    {
        let mut cors = self;
        let name = method_from_bytes(method.as_bytes());
        proof {
            lemma_inserted(self@.allow_methods, method.spec_bytes());
        }
        insert(&mut cors.allow_methods, name.unwrap());
        cors
    }

    /// Add an allow origin.
    ///
    /// NOTE: Default is allow any origin.
    #[must_use]
    pub fn allow_origin(self, origin: &str) -> (cors: Self)
        requires
            self.wf(),
            is_header_value(origin.spec_bytes()),
        ensures
            cors@ == (Rules {
                allow_origins: inserted(self@.allow_origins, origin.spec_bytes()),
                ..self@
            }),
            cors.predicate() == self.predicate(),
            cors.wf(),
    {
        let mut cors = self;
        let value = value_from_bytes(origin.as_bytes());
        proof {
            lemma_inserted(self@.allow_origins, origin.spec_bytes());
        }
        insert(&mut cors.allow_origins, value.unwrap());
        cors
    }

    /// Add many allow headers.
    #[must_use]
    pub fn allow_headers(self, headers: &[&str]) -> (cors: Self)
        requires
            self.wf(),
            forall|i: int| 0 <= i < headers.len() ==> is_header_name(#[trigger] headers[i].spec_bytes()),
        ensures
            cors@ == (Rules {
                allow_headers: inserted_all(
                    self@.allow_headers,
                    Seq::new(headers@.len(), |i: int| lowered(headers[i].spec_bytes())),
                    headers@.len(),
                ),
                ..self@
            }),
            cors.predicate() == self.predicate(),
            cors.wf(),
    {
        let ghost items = Seq::new(headers@.len(), |i: int| lowered(headers[i].spec_bytes()));
        let mut cors = self;
        let mut i: usize = 0;
        while i < headers.len()
            invariant
                i <= headers.len(),
                items == Seq::new(headers@.len(), |i: int| lowered(headers[i].spec_bytes())),
                forall|i: int|
                    0 <= i < headers.len() ==> is_header_name(#[trigger] headers[i].spec_bytes()),
                cors@ == (Rules {
                    allow_headers: inserted_all(self@.allow_headers, items, i as nat),
                    ..self@
                }),
                cors.predicate() == self.predicate(),
                cors.wf(),
            decreases headers.len() - i,
        {
            cors = cors.allow_header(headers[i]);
            i += 1;
        }
        cors
    }

    /// Add many allow methods.
    #[must_use]
    pub fn allow_methods(self, methods: &[&str]) -> (cors: Self)
        requires
            self.wf(),
            forall|i: int| 0 <= i < methods.len() ==> is_method(#[trigger] methods[i].spec_bytes()),
        ensures
            cors@ == (Rules {
                allow_methods: inserted_all(
                    self@.allow_methods,
                    Seq::new(methods@.len(), |i: int| methods[i].spec_bytes()),
                    methods@.len(),
                ),
                ..self@
            }),
            cors.predicate() == self.predicate(),
            cors.wf(),
    {
        let ghost items = Seq::new(methods@.len(), |i: int| methods[i].spec_bytes());
        let mut cors = self;
        let mut i: usize = 0;
        while i < methods.len()
            invariant
                i <= methods.len(),
                items == Seq::new(methods@.len(), |i: int| methods[i].spec_bytes()),
                forall|i: int|
                    0 <= i < methods.len() ==> is_method(#[trigger] methods[i].spec_bytes()),
                cors@ == (Rules {
                    allow_methods: inserted_all(self@.allow_methods, items, i as nat),
                    ..self@
                }),
                cors.predicate() == self.predicate(),
                cors.wf(),
            decreases methods.len() - i,
        {
            cors = cors.allow_method(methods[i]);
            i += 1;
        }
        cors
    }

    /// Add many allow origins.
    #[must_use]
    pub fn allow_origins(self, origins: &[&str]) -> (cors: Self)
        requires
            self.wf(),
            forall|i: int|
                0 <= i < origins.len() ==> is_header_value(#[trigger] origins[i].spec_bytes()),
        ensures
            cors@ == (Rules {
                allow_origins: inserted_all(
                    self@.allow_origins,
                    Seq::new(origins@.len(), |i: int| origins[i].spec_bytes()),
                    origins@.len(),
                ),
                ..self@
            }),
            cors.predicate() == self.predicate(),
            cors.wf(),
    {
        let ghost items = Seq::new(origins@.len(), |i: int| origins[i].spec_bytes());
        let mut cors = self;
        let mut i: usize = 0;
        while i < origins.len()
            invariant
                i <= origins.len(),
                items == Seq::new(origins@.len(), |i: int| origins[i].spec_bytes()),
                forall|i: int|
                    0 <= i < origins.len() ==> is_header_value(#[trigger] origins[i].spec_bytes()),
                cors@ == (Rules {
                    allow_origins: inserted_all(self@.allow_origins, items, i as nat),
                    ..self@
                }),
                cors.predicate() == self.predicate(),
                cors.wf(),
            decreases origins.len() - i,
        {
            cors = cors.allow_origin(origins[i]);
            i += 1;
        }
        cors
    }

    /// Determinate allowed origins by processing requests which didn't match
    /// any origins specified in the `allow_origin`.
    ///
    /// This function will receive the `Origin` header, which can be used to
    /// determine whether to allow the request.
    #[must_use]
    pub fn allow_origins_fn<F>(self, f: F) -> (cors: Cors<FnPredicate<F>>) where
        F: Fn(&str) -> bool + Send + Sync + 'static,

        ensures
            cors@ == self@,
            cors.predicate() matches Some(p) && p.inner() == f,
            self.wf() && (forall|s: &str| call_requires(f, (s,))) ==> cors.wf(),
    {
        Cors {
            allow_credentials: self.allow_credentials,
            allow_origins: self.allow_origins,
            allow_origins_fn: Some(FnPredicate::new(f)),
            allow_headers: self.allow_headers,
            allow_methods: self.allow_methods,
            expose_headers: self.expose_headers,
            max_age: self.max_age,
        }
    }

    /// Add an expose header.
    #[must_use]
    pub fn expose_header(self, header: &str) -> (cors: Self)
        requires
            self.wf(),
            is_header_name(header.spec_bytes()),
        ensures
            cors@ == (Rules {
                expose_headers: inserted(self@.expose_headers, lowered(header.spec_bytes())),
                ..self@
            }),
            cors.predicate() == self.predicate(),
            cors.wf(),
    {
        let mut cors = self;
        let name = name_from_bytes(header.as_bytes());
        proof {
            lemma_lowered_is_stored(header.spec_bytes());
            lemma_inserted(self@.expose_headers, lowered(header.spec_bytes()));
        }
        insert(&mut cors.expose_headers, name.unwrap());
        cors
    }

    /// Add many expose headers.
    #[must_use]
    pub fn expose_headers(self, headers: &[&str]) -> (cors: Self)
        requires
            self.wf(),
            forall|i: int| 0 <= i < headers.len() ==> is_header_name(#[trigger] headers[i].spec_bytes()),
        ensures
            cors@ == (Rules {
                expose_headers: inserted_all(
                    self@.expose_headers,
                    Seq::new(headers@.len(), |i: int| lowered(headers[i].spec_bytes())),
                    headers@.len(),
                ),
                ..self@
            }),
            cors.predicate() == self.predicate(),
            cors.wf(),
    {
        let ghost items = Seq::new(headers@.len(), |i: int| lowered(headers[i].spec_bytes()));
        let mut cors = self;
        let mut i: usize = 0;
        while i < headers.len()
            invariant
                i <= headers.len(),
                items == Seq::new(headers@.len(), |i: int| lowered(headers[i].spec_bytes())),
                forall|i: int|
                    0 <= i < headers.len() ==> is_header_name(#[trigger] headers[i].spec_bytes()),
                cors@ == (Rules {
                    expose_headers: inserted_all(self@.expose_headers, items, i as nat),
                    ..self@
                }),
                cors.predicate() == self.predicate(),
                cors.wf(),
            decreases headers.len() - i,
        {
            cors = cors.expose_header(headers[i]);
            i += 1;
        }
        cors
    }

    /// Set max age.
    #[must_use]
    pub fn max_age(self, max_age: i32) -> (cors: Self)
        ensures
            cors@ == (Rules { max_age, ..self@ }),
            cors.predicate() == self.predicate(),
            self.wf() ==> cors.wf(),
    {
        let mut cors = self;
        cors.max_age = max_age;
        cors
    }
}

/// The headers that the middleware sets.
#[derive(Clone, Copy, Debug, PartialEq, Eq, Structural)]
pub enum CorsHeader {
    /// `Access-Control-Allow-Origin`
    AllowOrigin,
    /// `Access-Control-Allow-Credentials`
    AllowCredentials,
    /// `Access-Control-Allow-Methods`
    AllowMethods,
    /// `Access-Control-Allow-Headers`
    AllowHeaders,
    /// `Access-Control-Expose-Headers`
    ExposeHeaders,
    /// `Access-Control-Max-Age`
    MaxAge,
    /// `Vary`
    Vary,
}

/// What the middleware reads of a request.
#[derive(Debug, Clone, PartialEq, Eq)]
pub struct CorsRequest {
    /// The method of the request.
    pub method: Vec<u8>,
    /// The value of `Origin`, if the request has one.
    pub origin: Option<Vec<u8>>,
    /// The value of `Access-Control-Request-Method`, if the request has one.
    pub request_method: Option<Vec<u8>>,
    /// The value of `Access-Control-Request-Headers`, if the request has one.
    pub request_headers: Option<Vec<u8>>,
}

/// A request as plain values.
pub struct RequestView {
    pub method: Seq<u8>,
    pub origin: Option<Seq<u8>>,
    pub request_method: Option<Seq<u8>>,
    pub request_headers: Option<Seq<u8>>,
}

/// The view of bytes that may be missing.
pub open spec fn view_of(bytes: Option<Vec<u8>>) -> Option<Seq<u8>> {
    match bytes {
        Some(b) => Some(b@),
        None => None,
    }
}

impl View for CorsRequest {
    type V = RequestView;

    open spec fn view(&self) -> RequestView {
        RequestView {
            method: self.method@,
            origin: view_of(self.origin),
            request_method: view_of(self.request_method),
            request_headers: view_of(self.request_headers),
        }
    }
}

/// What the middleware does with a request.
#[derive(Debug, PartialEq, Eq)]
pub enum CorsVerdict {
    /// The request has no `Origin`: it is passed on and the response is left
    /// as it is.
    NotCors,
    /// The request is refused with status 401.
    Unauthorized,
    /// The request is a preflight request and is answered at once, with
    /// status 200, these headers and no body.
    Preflight(Vec<(CorsHeader, Vec<u8>)>),
    /// The request is passed on, and these headers are set on its response.
    Forward(Vec<(CorsHeader, Vec<u8>)>),
}

/// A verdict as plain values.
pub enum Outcome {
    NotCors,
    Unauthorized,
    Preflight(Seq<(CorsHeader, Seq<u8>)>),
    Forward(Seq<(CorsHeader, Seq<u8>)>),
}

/// Headers as plain values.
pub open spec fn entries(list: Seq<(CorsHeader, Vec<u8>)>) -> Seq<(CorsHeader, Seq<u8>)> {
    Seq::new(list.len(), |i: int| (list[i].0, list[i].1@))
}

impl View for CorsVerdict {
    type V = Outcome;

    open spec fn view(&self) -> Outcome {
        match self {
            CorsVerdict::NotCors => Outcome::NotCors,
            CorsVerdict::Unauthorized => Outcome::Unauthorized,
            CorsVerdict::Preflight(headers) => Outcome::Preflight(entries(headers@)),
            CorsVerdict::Forward(headers) => Outcome::Forward(entries(headers@)),
        }
    }
}

/// `OPTIONS`
pub open spec fn options() -> Seq<u8> {
    seq![0x4fu8, 0x50u8, 0x54u8, 0x49u8, 0x4fu8, 0x4eu8, 0x53u8]
}

/// `true`
pub open spec fn yes() -> Seq<u8> {
    seq![0x74u8, 0x72u8, 0x75u8, 0x65u8]
}

/// `*`
pub open spec fn any() -> Seq<u8> {
    seq![0x2au8]
}

/// `Origin`
pub open spec fn origin_word() -> Seq<u8> {
    seq![0x4fu8, 0x72u8, 0x69u8, 0x67u8, 0x69u8, 0x6eu8]
}

/// The methods that are allowed while none was named: `GET`, `POST`, `PUT`,
/// `DELETE`, `HEAD`, `OPTIONS`, `CONNECT`, `PATCH`, `TRACE`.
pub open spec fn all_methods() -> Seq<Seq<u8>> {
    seq![
        seq![0x47u8, 0x45u8, 0x54u8],
        seq![0x50u8, 0x4fu8, 0x53u8, 0x54u8],
        seq![0x50u8, 0x55u8, 0x54u8],
        seq![0x44u8, 0x45u8, 0x4cu8, 0x45u8, 0x54u8, 0x45u8],
        seq![0x48u8, 0x45u8, 0x41u8, 0x44u8],
        options(),
        seq![0x43u8, 0x4fu8, 0x4eu8, 0x4eu8, 0x45u8, 0x43u8, 0x54u8],
        seq![0x50u8, 0x41u8, 0x54u8, 0x43u8, 0x48u8],
        seq![0x54u8, 0x52u8, 0x41u8, 0x43u8, 0x45u8],
    ]
}

/// What is said of an origin, as the pair of "it is allowed" and "the
/// response varies with the origin": an origin on the list is allowed and
/// the response does not vary; an origin that the predicate allowed is
/// allowed; any other origin is allowed only if `open`, that is if there is
/// neither a list nor a predicate.
pub open spec fn verdict_of(listed: bool, answer: Option<bool>, open: bool) -> (bool, bool) {
    if listed {
        (true, false)
    } else if answer == Some(true) {
        (true, true)
    } else {
        (open, true)
    }
}

/// Whether the method that a preflight request asks for is granted: it must
/// be named, be a method, and be on the list if there is a list.
pub open spec fn method_granted(rules: Rules, asked: Option<Seq<u8>>) -> bool {
    asked matches Some(m) && is_method(m) && (rules.allow_methods.len() == 0
        || rules.allow_methods.contains(m))
}

/// Whether `b` is a space or a tab.
pub open spec fn is_blank(b: u8) -> bool {
    b == 0x20 || b == 0x09
}

/// Whether `value[a..b]` is one item of the comma-separated list `value`:
/// it holds no comma and has the start of the value or a comma before it, and
/// the end of the value or a comma after it.
pub open spec fn is_item(value: Seq<u8>, a: int, b: int) -> bool {
    &&& 0 <= a <= b <= value.len()
    &&& a == 0 || value[a - 1] == 0x2c
    &&& b == value.len() || value[b] == 0x2c
    &&& forall|k: int| a <= k < b ==> value[k] != 0x2c
}

/// Where `value[a..b]` starts once the blanks in front are left out.
pub open spec fn trim_start(value: Seq<u8>, a: int, b: int) -> int
    decreases b - a,
{
    if a < b && is_blank(value[a]) {
        trim_start(value, a + 1, b)
    } else {
        a
    }
}

/// Where `value[a..b]` ends once the blanks at the end are left out.
pub open spec fn trim_end(value: Seq<u8>, a: int, b: int) -> int
    decreases b - a,
{
    if a < b && is_blank(value[b - 1]) {
        trim_end(value, a, b - 1)
    } else {
        b
    }
}

/// `value[a..b]` without the blanks around it.
pub open spec fn trimmed(value: Seq<u8>, a: int, b: int) -> Seq<u8> {
    let from = trim_start(value, a, b);
    value.subrange(from, trim_end(value, from, b))
}

/// Whether `value[a..b]`, trimmed, is a header name that `list` holds.
pub open spec fn item_listed(list: Seq<Seq<u8>>, value: Seq<u8>, a: int, b: int) -> bool {
    is_header_name(trimmed(value, a, b)) && list.contains(lowered(trimmed(value, a, b)))
}

/// Whether the headers that a preflight request asks for are granted. They
/// are if there is no list, or if the request names none. Else the value
/// must be text, and one of its items must be on the list.
pub open spec fn headers_granted(rules: Rules, asked: Option<Seq<u8>>) -> bool {
    rules.allow_headers.len() == 0 || match asked {
        None => true,
        Some(value) => is_visible(value) && exists|a: int, b: int|
            is_item(value, a, b) && item_listed(rules.allow_headers, value, a, b),
    }
}

/// The headers of the answer to a preflight request from `origin`.
pub open spec fn preflight_headers(rules: Rules, origin: Seq<u8>) -> Seq<(CorsHeader, Seq<u8>)> {
    seq![
        (CorsHeader::AllowOrigin, origin),
        (CorsHeader::ExposeHeaders, crate::http::comma_joined(rules.expose_headers)),
        (CorsHeader::MaxAge, crate::http::decimal(rules.max_age as int)),
        (
            CorsHeader::AllowMethods,
            if rules.allow_methods.len() == 0 {
                crate::http::comma_joined(all_methods())
            } else {
                crate::http::comma_joined(rules.allow_methods)
            },
        ),
        (
            CorsHeader::AllowHeaders,
            if rules.allow_headers.len() == 0 {
                any()
            } else {
                crate::http::comma_joined(rules.allow_headers)
            },
        ),
    ] + if rules.allow_credentials {
        seq![(CorsHeader::AllowCredentials, yes())]
    } else {
        Seq::empty()
    }
}

/// The headers set on the response to a request from `origin` that was
/// passed on.
pub open spec fn forward_headers(rules: Rules, origin: Seq<u8>, vary: bool) -> Seq<
    (CorsHeader, Seq<u8>),
> {
    seq![(CorsHeader::AllowOrigin, origin)] + (if rules.allow_credentials {
        seq![(CorsHeader::AllowCredentials, yes())]
    } else {
        Seq::empty()
    }) + (if rules.expose_headers.len() > 0 {
        seq![(CorsHeader::ExposeHeaders, crate::http::comma_joined(rules.expose_headers))]
    } else {
        Seq::empty()
    }) + (if vary {
        seq![(CorsHeader::Vary, origin_word())]
    } else {
        Seq::empty()
    })
}

/// What is done with `request`, which came from `origin`, once it is known
/// whether the origin is `allowed` and whether the response varies with it.
pub open spec fn outcome(
    rules: Rules,
    request: RequestView,
    origin: Seq<u8>,
    allowed: bool,
    vary: bool,
) -> Outcome {
    if !allowed {
        Outcome::Unauthorized
    } else if request.method == options() {
        if method_granted(rules, request.request_method) && headers_granted(
            rules,
            request.request_headers,
        ) {
            Outcome::Preflight(preflight_headers(rules, origin))
        } else {
            Outcome::Unauthorized
        }
    } else {
        Outcome::Forward(forward_headers(rules, origin, vary))
    }
}

/// Endpoint for Cors middleware.
pub struct CorsEndpoint<E, P = NoPredicate> {
    inner: E,
    allow_credentials: bool,
    allow_origins: Vec<Vec<u8>>,
    allow_origins_fn: Option<P>,
    allow_headers: Vec<Vec<u8>>,
    allow_methods: Vec<Vec<u8>>,
    expose_headers: Vec<Vec<u8>>,
    allow_headers_header: Vec<u8>,
    allow_methods_header: Vec<u8>,
    expose_headers_header: Vec<u8>,
    max_age: i32,
}

impl<E, P> View for CorsEndpoint<E, P> {
    type V = Rules;

    closed spec fn view(&self) -> Rules {
        Rules {
            allow_credentials: self.allow_credentials,
            allow_origins: views(self.allow_origins@),
            allow_headers: views(self.allow_headers@),
            allow_methods: views(self.allow_methods@),
            expose_headers: views(self.expose_headers@),
            max_age: self.max_age,
        }
    }
}

/// The names of [`all_methods`].
fn all_method_names() -> (names: Vec<Vec<u8>>)
    ensures
        views(names@) == all_methods(),
        forall|i: int| 0 <= i < names.len() ==> is_method(#[trigger] names[i]@),
{
    let names: Vec<Vec<u8>> = vec![
        vec![0x47u8, 0x45u8, 0x54u8],
        vec![0x50u8, 0x4fu8, 0x53u8, 0x54u8],
        vec![0x50u8, 0x55u8, 0x54u8],
        vec![0x44u8, 0x45u8, 0x4cu8, 0x45u8, 0x54u8, 0x45u8],
        vec![0x48u8, 0x45u8, 0x41u8, 0x44u8],
        vec![0x4fu8, 0x50u8, 0x54u8, 0x49u8, 0x4fu8, 0x4eu8, 0x53u8],
        vec![0x43u8, 0x4fu8, 0x4eu8, 0x4eu8, 0x45u8, 0x43u8, 0x54u8],
        vec![0x50u8, 0x41u8, 0x54u8, 0x43u8, 0x48u8],
        vec![0x54u8, 0x52u8, 0x41u8, 0x43u8, 0x45u8],
    ];
    proof {
        assert(views(names@) =~= all_methods()) by {
            assert forall|i: int| 0 <= i < 9 implies views(names@)[i] =~= all_methods()[i] by {}
        }
    }
    names
}

/// Says what holds of an origin, from whether the list holds it, what the
/// predicate answered if it was asked, and whether any origin is welcome.
pub fn origin_verdict(listed: bool, answer: Option<bool>, open: bool) -> (verdict: (bool, bool))
    ensures
        verdict == verdict_of(listed, answer, open),
{
    if listed {
        (true, false)
    } else {
        match answer {
            Some(true) => (true, true),
            _ => (open, true),
        }
    }
}

/// Whether `value[a..b]`, trimmed, is a header name that `list` holds.
fn item_is_listed(list: &Vec<Vec<u8>>, value: &[u8], a: usize, b: usize) -> (listed: bool)
    requires
        a <= b <= value.len(),
    ensures
        listed == item_listed(views(list@), value@, a as int, b as int),
{
    let mut lo: usize = a;
    while lo < b && (value[lo] == 0x20 || value[lo] == 0x09)
        invariant
            a <= lo <= b <= value.len(),
            trim_start(value@, lo as int, b as int) == trim_start(value@, a as int, b as int),
        decreases b - lo,
    {
        lo += 1;
    }
    let mut hi: usize = b;
    while lo < hi && (value[hi - 1] == 0x20 || value[hi - 1] == 0x09)
        invariant
            lo <= hi <= b <= value.len(),
            trim_end(value@, lo as int, hi as int) == trim_end(value@, lo as int, b as int),
        decreases hi - lo,
    {
        hi -= 1;
    }
    let item = vstd::slice::slice_subrange(value, lo, hi);
    match name_from_bytes(item) {
        None => false,
        Some(name) => holds(list, name.as_slice()),
    }
}

/// Whether one item of the comma-separated `value` is a header name that
/// `list` holds.
fn any_item_listed(list: &Vec<Vec<u8>>, value: &[u8]) -> (found: bool)
    ensures
        found == exists|a: int, b: int|
            is_item(value@, a, b) && item_listed(views(list@), value@, a, b),
{
    let n: usize = value.len();
    let mut start: usize = 0;
    let mut i: usize = 0;
    while i < n
        invariant
            start <= i <= n,
            n == value.len(),
            start == 0 || value@[start - 1] == 0x2c,
            forall|k: int| start <= k < i ==> value@[k] != 0x2c,
            forall|a: int, b: int|
                #[trigger] is_item(value@, a, b) && a < start ==> !item_listed(
                    views(list@),
                    value@,
                    a,
                    b,
                ),
        decreases n - i,
    {
        if value[i] == 0x2c {
            if item_is_listed(list, value, start, i) {
                assert(is_item(value@, start as int, i as int));
                return true;
            }
            assert forall|a: int, b: int| #[trigger]
                is_item(value@, a, b) && a < i + 1 implies !item_listed(
                views(list@),
                value@,
                a,
                b,
            ) by {
                if a == start {
                    if b < i {
                        assert(value@[b] == 0x2c);
                    }
                    if b > i {
                        assert(value@[i as int] != 0x2c);
                    }
                } else if a > start {
                    assert(value@[a - 1] == 0x2c);
                }
            }
            start = i + 1;
        }
        i += 1;
    }
    if item_is_listed(list, value, start, n) {
        assert(is_item(value@, start as int, n as int));
        return true;
    }
    assert forall|a: int, b: int| #[trigger] is_item(value@, a, b) implies !item_listed(
        views(list@),
        value@,
        a,
        b,
    ) by {
        if a == start {
            if b < n {
                assert(value@[b] == 0x2c);
            }
        } else if a > start {
            assert(value@[a - 1] == 0x2c);
        }
    }
    false
}

impl<P: OriginPredicate> Cors<P> {
    /// Puts the middleware in front of `ep`.
    pub fn transform<E>(self, ep: E) -> (endpoint: CorsEndpoint<E, P>)
        requires
            self.wf(),
        ensures
            endpoint@ == self@,
            endpoint.predicate() == self.predicate(),
            endpoint.inner() == ep,
            endpoint.wf(),
    {
        proof {
            assert forall|i: int| 0 <= i < self.allow_headers.len() implies is_stored_name(
                #[trigger] self.allow_headers[i]@,
            ) by {
                assert(self@.allow_headers[i] == self.allow_headers[i]@);
            }
            assert forall|i: int| 0 <= i < self.allow_methods.len() implies is_method(
                #[trigger] self.allow_methods[i]@,
            ) by {
                assert(self@.allow_methods[i] == self.allow_methods[i]@);
            }
            assert forall|i: int| 0 <= i < self.expose_headers.len() implies is_stored_name(
                #[trigger] self.expose_headers[i]@,
            ) by {
                assert(self@.expose_headers[i] == self.expose_headers[i]@);
            }
        }
        let allow_headers_header = allow_headers_from(&self.allow_headers);
        let allow_methods_header = allow_methods_from(&self.allow_methods);
        let expose_headers_header = expose_headers_from(&self.expose_headers);
        CorsEndpoint {
            inner: ep,
            allow_credentials: self.allow_credentials,
            allow_origins: self.allow_origins,
            allow_origins_fn: self.allow_origins_fn,
            allow_headers: self.allow_headers,
            allow_methods: self.allow_methods,
            expose_headers: self.expose_headers,
            allow_headers_header,
            allow_methods_header,
            expose_headers_header,
            max_age: self.max_age,
        }
    }
}

impl<E, P: OriginPredicate> CorsEndpoint<E, P> {
    /// The endpoint behind the middleware.
    pub closed spec fn inner(self) -> E {
        self.inner
    }

    /// The question that is put about origins that the list does not hold,
    /// if there is one.
    pub closed spec fn predicate(self) -> Option<P> {
        self.allow_origins_fn
    }

    /// Whether the rules are in order, the predicate may be asked, and the
    /// list headers that are kept ready spell the lists.
    pub closed spec fn wf(self) -> bool {
        &&& self@.wf()
        &&& self.predicate() matches Some(p) ==> p.callable()
        &&& self.allow_headers_header@ == crate::http::comma_joined(self@.allow_headers)
        &&& self.allow_methods_header@ == crate::http::comma_joined(self@.allow_methods)
        &&& self.expose_headers_header@ == crate::http::comma_joined(self@.expose_headers)
    }

    /// Whether any origin is welcome: there is neither a list nor a predicate.
    pub open spec fn open(self) -> bool {
        self@.allow_origins.len() == 0 && self.predicate() is None
    }

    /// What the predicate may have answered about `origin`: `None` if it was
    /// not asked, which is so if the list holds the origin, if there is no
    /// predicate, or if the origin is not text.
    pub open spec fn may_answer(self, origin: Seq<u8>, answer: Option<bool>) -> bool {
        match answer {
            Some(allowed) => {
                &&& !self@.allow_origins.contains(origin)
                &&& is_visible(origin)
                &&& self.predicate() matches Some(p) && exists|text: Seq<char>|
                    vstd::utf8::encode_utf8(text) == origin && p.verdict(text, allowed)
            },
            None => {
                ||| self@.allow_origins.contains(origin)
                ||| self.predicate() is None
                ||| !is_visible(origin)
            },
        }
    }

    /// The endpoint behind the middleware.
    pub fn get_ref(&self) -> (inner: &E)
        ensures
            *inner == self.inner(),
    {
        &self.inner
    }

    /// Says whether `origin` is allowed, and whether the response varies with
    /// the origin.
    pub fn is_valid_origin(&self, origin: &[u8]) -> (verdict: (bool, bool))
        requires
            self.wf(),
        ensures
            exists|answer: Option<bool>| #[trigger]
                self.may_answer(origin@, answer) && verdict == verdict_of(
                    self@.allow_origins.contains(origin@),
                    answer,
                    self.open(),
                ),
    {
        if holds(&self.allow_origins, origin) {
            assert(self.may_answer(origin@, None));
            return (true, false);
        }
        let answer = match &self.allow_origins_fn {
            Some(p) => match value_to_str(origin) {
                Some(text) => Some(p.allows(text.as_str())),
                None => None,
            },
            None => None,
        };
        assert(self.may_answer(origin@, answer));
        origin_verdict(false, answer, self.allow_origins.is_empty() && self.allow_origins_fn.is_none())
    }

    /// The headers of the answer to a preflight request from `origin`.
    pub fn build_preflight_response(&self, origin: &[u8]) -> (headers: Vec<(CorsHeader, Vec<u8>)>)
        requires
            self.wf(),
        ensures
            entries(headers@) == preflight_headers(self@, origin@),
    {
        let mut headers: Vec<(CorsHeader, Vec<u8>)> = Vec::new();
        headers.push((CorsHeader::AllowOrigin, vstd::slice::slice_to_vec(origin)));
        headers.push(
            (
                CorsHeader::ExposeHeaders,
                vstd::slice::slice_to_vec(self.expose_headers_header.as_slice()),
            ),
        );
        headers.push((CorsHeader::MaxAge, value_from_i32(self.max_age)));
        if self.allow_methods.is_empty() {
            let names = all_method_names();
            headers.push((CorsHeader::AllowMethods, allow_methods_from(&names)));
        } else {
            headers.push(
                (
                    CorsHeader::AllowMethods,
                    vstd::slice::slice_to_vec(self.allow_methods_header.as_slice()),
                ),
            );
        }
        if self.allow_headers.is_empty() {
            headers.push((CorsHeader::AllowHeaders, vec![0x2au8]));
        } else {
            headers.push(
                (
                    CorsHeader::AllowHeaders,
                    vstd::slice::slice_to_vec(self.allow_headers_header.as_slice()),
                ),
            );
        }
        if self.allow_credentials {
            headers.push((CorsHeader::AllowCredentials, vec![0x74u8, 0x72u8, 0x75u8, 0x65u8]));
        }
        proof {
            let built = entries(headers@);
            let wanted = preflight_headers(self@, origin@);
            assert(built.len() == wanted.len());
            assert(built[0] == wanted[0]);
            assert(built[1] == wanted[1]);
            assert(built[2] == wanted[2]);
            assert(built[3] == wanted[3]);
            assert(built[4] == wanted[4]);
            if self.allow_credentials {
                assert(built[5].1 =~= yes());
                assert(built[5] == wanted[5]);
            }
            assert(built =~= wanted);
        }
        headers
    }

    /// The headers set on the response to a request from `origin` that was
    /// passed on.
    pub fn build_response_headers(&self, origin: &[u8], vary: bool) -> (headers: Vec<
        (CorsHeader, Vec<u8>),
    >)
        requires
            self.wf(),
        ensures
            entries(headers@) == forward_headers(self@, origin@, vary),
    {
        let mut headers: Vec<(CorsHeader, Vec<u8>)> = Vec::new();
        headers.push((CorsHeader::AllowOrigin, vstd::slice::slice_to_vec(origin)));
        if self.allow_credentials {
            headers.push((CorsHeader::AllowCredentials, vec![0x74u8, 0x72u8, 0x75u8, 0x65u8]));
        }
        if !self.expose_headers.is_empty() {
            headers.push(
                (
                    CorsHeader::ExposeHeaders,
                    vstd::slice::slice_to_vec(self.expose_headers_header.as_slice()),
                ),
            );
        }
        if vary {
            headers.push(
                (CorsHeader::Vary, vec![0x4fu8, 0x72u8, 0x69u8, 0x67u8, 0x69u8, 0x6eu8]),
            );
        }
        assert(entries(headers@) =~= forward_headers(self@, origin@, vary));
        headers
    }

    /// Whether the method that a preflight request asks for is granted.
    pub fn grants_method(&self, asked: &Option<Vec<u8>>) -> (granted: bool)
        ensures
            granted == method_granted(self@, view_of(*asked)),
    {
        match asked {
            None => false,
            Some(value) => match method_from_bytes(value.as_slice()) {
                None => false,
                Some(method) => self.allow_methods.is_empty() || holds(
                    &self.allow_methods,
                    method.as_slice(),
                ),
            },
        }
    }

    /// Whether the headers that a preflight request asks for are granted.
    pub fn grants_headers(&self, asked: &Option<Vec<u8>>) -> (granted: bool)
        ensures
            granted == headers_granted(self@, view_of(*asked)),
    {
        if self.allow_headers.is_empty() {
            return true;
        }
        match asked {
            None => true,
            Some(value) => match value_to_str(value.as_slice()) {
                None => false,
                Some(_) => any_item_listed(&self.allow_headers, value.as_slice()),
            },
        }
    }

    /// Says what is done with `request`, which came from `origin`, once it
    /// is known whether the origin is `allowed` and whether the response
    /// varies with it.
    pub fn decide(&self, request: &CorsRequest, origin: &[u8], allowed: bool, vary: bool) -> (verdict:
        CorsVerdict)
        requires
            self.wf(),
        ensures
            verdict@ == outcome(self@, request@, origin@, allowed, vary),
    {
        if !allowed {
            return CorsVerdict::Unauthorized;
        }
        let preflight: Vec<u8> = vec![0x4fu8, 0x50u8, 0x54u8, 0x49u8, 0x4fu8, 0x4eu8, 0x53u8];
        assert(preflight@ =~= options());
        if same_bytes(&request.method, preflight.as_slice()) {
            if !self.grants_method(&request.request_method) {
                return CorsVerdict::Unauthorized;
            }
            if !self.grants_headers(&request.request_headers) {
                return CorsVerdict::Unauthorized;
            }
            return CorsVerdict::Preflight(self.build_preflight_response(origin));
        }
        CorsVerdict::Forward(self.build_response_headers(origin, vary))
    }

    /// What may be done with `request`: nothing if it has no `Origin`; else
    /// what [`outcome`] gives for one of the answers that the predicate may
    /// have given about the origin.
    pub open spec fn checks(self, request: RequestView, verdict: Outcome) -> bool {
        match request.origin {
            None => verdict == Outcome::NotCors,
            Some(origin) => exists|answer: Option<bool>| #[trigger]
                self.may_answer(origin, answer) && verdict == outcome(
                    self@,
                    request,
                    origin,
                    verdict_of(self@.allow_origins.contains(origin), answer, self.open()).0,
                    verdict_of(self@.allow_origins.contains(origin), answer, self.open()).1,
                ),
        }
    }

    /// Says what is done with `request`. A request without `Origin` is no
    /// CORS request. For any other the origin is judged first, and asking the
    /// predicate is part of that.
    pub fn check(&self, request: &CorsRequest) -> (verdict: CorsVerdict)
        requires
            self.wf(),
        ensures
            self.checks(request@, verdict@),
    {
        match &request.origin {
            None => CorsVerdict::NotCors,
            Some(origin) => {
                let (allowed, vary) = self.is_valid_origin(origin.as_slice());
                let verdict = self.decide(request, origin.as_slice(), allowed, vary);
                proof {
                    let answer = choose|answer: Option<bool>| #[trigger]
                        self.may_answer(origin@, answer) && (allowed, vary) == verdict_of(
                            self@.allow_origins.contains(origin@),
                            answer,
                            self.open(),
                        );
                    let judged = verdict_of(
                        self@.allow_origins.contains(origin@),
                        answer,
                        self.open(),
                    );
                    assert(judged.0 == allowed && judged.1 == vary);
                    assert(request@.origin == Some(origin@));
                    assert(self.may_answer(origin@, answer) && verdict@ == outcome(
                        self@,
                        request@,
                        origin@,
                        verdict_of(self@.allow_origins.contains(origin@), answer, self.open()).0,
                        verdict_of(self@.allow_origins.contains(origin@), answer, self.open()).1,
                    ));
                }
                verdict
            },
        }
    }
}

} // verus!
