//! What can be wrong with a configuration document.

use vstd::prelude::*;

verus! {

/// Why a configuration could not be loaded.
#[derive(Debug, Clone, PartialEq, Eq)]
pub enum ValidationFileError {
    /// The document could not be read; the text says why.
    IoError(String),
    /// The document is not of the expected form; the text says why.
    SerdeError(String),
    /// The validator names no authority, by itself or through its templates.
    IsMissingAuthority(String),
    /// The validator names no header, by itself or through its templates.
    IsMissingHeader(String),
    /// The validator names an authority that the document does not hold.
    MissingAuthority { validator: String, authority: String },
    /// The validator names, by itself or through its templates, a template
    /// that the document does not hold.
    MissingTemplate { validator: String, template: String },
    /// The templates of a validator lead back to this template.
    CircularTemplate(String),
    /// The validator maps a claim to what is no header name.
    InvalidHeaderName { validator: String, claim: String, header: String },
}

/// What a [`ValidationFileError`] says.
pub enum ValidationFileErrorView {
    IoError(Seq<char>),
    SerdeError(Seq<char>),
    IsMissingAuthority(Seq<char>),
    IsMissingHeader(Seq<char>),
    MissingAuthority { validator: Seq<char>, authority: Seq<char> },
    MissingTemplate { validator: Seq<char>, template: Seq<char> },
    CircularTemplate(Seq<char>),
    InvalidHeaderName { validator: Seq<char>, claim: Seq<char>, header: Seq<char> },
}

impl DeepView for ValidationFileError {
    type V = ValidationFileErrorView;

    open spec fn deep_view(&self) -> ValidationFileErrorView {
        match self {
            ValidationFileError::IoError(cause) => ValidationFileErrorView::IoError(cause@),
            ValidationFileError::SerdeError(cause) => ValidationFileErrorView::SerdeError(cause@),
            ValidationFileError::IsMissingAuthority(name) =>
                ValidationFileErrorView::IsMissingAuthority(name@),
            ValidationFileError::IsMissingHeader(name) => ValidationFileErrorView::IsMissingHeader(
                name@,
            ),
            ValidationFileError::MissingAuthority { validator, authority } =>
                ValidationFileErrorView::MissingAuthority {
                    validator: validator@,
                    authority: authority@,
                },
            ValidationFileError::MissingTemplate { validator, template } =>
                ValidationFileErrorView::MissingTemplate {
                    validator: validator@,
                    template: template@,
                },
            ValidationFileError::CircularTemplate(name) => ValidationFileErrorView::CircularTemplate(
                name@,
            ),
            ValidationFileError::InvalidHeaderName { validator, claim, header } =>
                ValidationFileErrorView::InvalidHeaderName {
                    validator: validator@,
                    claim: claim@,
                    header: header@,
                },
        }
    }
}

impl ValidationFileErrorView {
    /// The error in words.
    pub open spec fn message(self) -> Seq<char> {
        match self {
            ValidationFileErrorView::IoError(cause) => "Validation file IO error: "@ + cause,
            ValidationFileErrorView::SerdeError(cause) =>
                "Validation file deserialization error: "@ + cause,
            ValidationFileErrorView::IsMissingAuthority(name) => "Validator "@ + name
                + " is missing an authority"@,
            ValidationFileErrorView::IsMissingHeader(name) => "Validator "@ + name
                + " is missing the jwt header"@,
            ValidationFileErrorView::MissingAuthority { validator, authority } => "Validator "@
                + validator + " references missing authority "@ + authority,
            ValidationFileErrorView::MissingTemplate { validator, template } => "Validator "@
                + validator + " references missing template "@ + template,
            ValidationFileErrorView::CircularTemplate(name) =>
                "Circular template reference in template "@ + name,
            ValidationFileErrorView::InvalidHeaderName { validator, claim, header } => "Validator "@
                + validator + " references invalid header name "@ + header + " for claim "@
                + claim,
        }
    }
}

fn sentence(first: &str, a: &str, second: &str, b: &str) -> (r: String)
    ensures
        r@ == first@ + a@ + second@ + b@,
{
    let mut text = String::from_str(first);
    text.append(a);
    text.append(second);
    text.append(b);
    text
}

impl ValidationFileError {
    /// The error in words.
    pub fn message(&self) -> (r: String)
        ensures
            r@ == self.deep_view().message(),
    {
        match self {
            ValidationFileError::IoError(cause) => {
                let r = sentence("Validation file IO error: ", cause.as_str(), "", "");
                proof {
                    reveal_strlit("");
                    assert(r@ =~= self.deep_view().message());
                }
                r
            },
            ValidationFileError::SerdeError(cause) => {
                let r = sentence("Validation file deserialization error: ", cause.as_str(), "", "");
                proof {
                    reveal_strlit("");
                    assert(r@ =~= self.deep_view().message());
                }
                r
            },
            ValidationFileError::IsMissingAuthority(name) => {
                let r = sentence("Validator ", name.as_str(), " is missing an authority", "");
                proof {
                    reveal_strlit("");
                    assert(r@ =~= self.deep_view().message());
                }
                r
            },
            ValidationFileError::IsMissingHeader(name) => {
                let r = sentence("Validator ", name.as_str(), " is missing the jwt header", "");
                proof {
                    reveal_strlit("");
                    assert(r@ =~= self.deep_view().message());
                }
                r
            },
            ValidationFileError::MissingAuthority { validator, authority } => sentence(
                "Validator ",
                validator.as_str(),
                " references missing authority ",
                authority.as_str(),
            ),
            ValidationFileError::MissingTemplate { validator, template } => sentence(
                "Validator ",
                validator.as_str(),
                " references missing template ",
                template.as_str(),
            ),
            ValidationFileError::CircularTemplate(name) => {
                let r = sentence("Circular template reference in template ", name.as_str(), "", "");
                proof {
                    reveal_strlit("");
                    assert(r@ =~= self.deep_view().message());
                }
                r
            },
            ValidationFileError::InvalidHeaderName { validator, claim, header } => {
                let mut r = sentence(
                    "Validator ",
                    validator.as_str(),
                    " references invalid header name ",
                    header.as_str(),
                );
                r.append(" for claim ");
                r.append(claim.as_str());
                r
            },
        }
    }
}

} // verus!
