//! The claims of a verified token.

use vstd::prelude::*;

verus! {

/// The value of a claim that is not one of the registered ones.
#[derive(Debug, Clone, PartialEq, Eq)]
pub enum ClaimValue {
    Null,
    Bool(bool),
    /// A number, in its decimal notation.
    Number(String),
    String(String),
    Array,
    Object,
}

/// The claims of a token whose signature and registered claims were found in
/// order.
#[derive(Debug, Clone, PartialEq, Eq)]
pub struct JWTClaims {
    pub aud: Option<Vec<String>>,
    pub iss: Option<String>,
    pub sub: Option<String>,
    /// Seconds since the Unix epoch.
    pub exp: Option<u64>,
    /// Seconds since the Unix epoch.
    pub nbf: Option<u64>,
    /// All other claims by name; of two entries with one name the first
    /// counts.
    pub other: Vec<(String, ClaimValue)>,
}

/// What a [`ClaimValue`] says.
pub enum ClaimValueView {
    Null,
    Bool(bool),
    Number(Seq<char>),
    String(Seq<char>),
    Array,
    Object,
}

/// What a [`JWTClaims`] says.
pub struct JWTClaimsView {
    pub aud: Option<Seq<Seq<char>>>,
    pub iss: Option<Seq<char>>,
    pub sub: Option<Seq<char>>,
    pub exp: Option<u64>,
    pub nbf: Option<u64>,
    pub other: Seq<(Seq<char>, ClaimValueView)>,
}

impl ClaimValueView {
    /// The text that the value is compared and sent as. Arrays and objects
    /// have none.
    pub open spec fn text(self) -> Option<Seq<char>> {
        match self {
            ClaimValueView::Null => Some(Seq::empty()),
            ClaimValueView::Bool(b) => Some(
                if b {
                    "true"@
                } else {
                    "false"@
                },
            ),
            ClaimValueView::Number(n) => Some(n),
            ClaimValueView::String(s) => Some(s),
            ClaimValueView::Array => None,
            ClaimValueView::Object => None,
        }
    }
}

impl DeepView for ClaimValue {
    type V = ClaimValueView;

    open spec fn deep_view(&self) -> ClaimValueView {
        match self {
            ClaimValue::Null => ClaimValueView::Null,
            ClaimValue::Bool(b) => ClaimValueView::Bool(*b),
            ClaimValue::Number(n) => ClaimValueView::Number(n@),
            ClaimValue::String(s) => ClaimValueView::String(s@),
            ClaimValue::Array => ClaimValueView::Array,
            ClaimValue::Object => ClaimValueView::Object,
        }
    }
}

impl DeepView for JWTClaims {
    type V = JWTClaimsView;

    open spec fn deep_view(&self) -> JWTClaimsView {
        JWTClaimsView {
            aud: self.aud.deep_view(),
            iss: self.iss.deep_view(),
            sub: self.sub.deep_view(),
            exp: self.exp,
            nbf: self.nbf,
            other: self.other.deep_view(),
        }
    }
}

impl ClaimValue {
    /// The text that the value is compared and sent as, if it has one.
    pub fn text(&self) -> (r: Option<String>)
        ensures
            r.deep_view() == self.deep_view().text(),
    {
        match self {
            ClaimValue::Null => Some(String::new()),
            ClaimValue::Bool(b) => Some(
                if *b {
                    String::from_str("true")
                } else {
                    String::from_str("false")
                },
            ),
            ClaimValue::Number(n) => Some(n.clone()),
            ClaimValue::String(s) => Some(s.clone()),
            ClaimValue::Array => None,
            ClaimValue::Object => None,
        }
    }
}

} // verus!
