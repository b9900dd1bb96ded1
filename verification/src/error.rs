use vstd::prelude::*;

verus! {

/// Why a derivation produced no password.
#[derive(Debug, PartialEq)]
pub enum AegixPassError {
    /// The secret or the label is empty.
    InputEmpty,
    /// The requested length cannot hold one character per group: `(length, groups)`.
    LengthTooShort(usize, usize),
    /// A character group holds no character.
    EmptyCharset,
    /// The preset text could not be decoded.
    PresetParseError(String),
    /// More groups than the seed has four-byte slices: `(groups, supported)`.
    TooManyCharsetGroups(usize, usize),
    /// Argon2id refused its inputs.
    Argon2Error(String),
    /// Scrypt refused its inputs.
    ScryptError(String),
    /// One sample used up its whole allowance of words without accepting any.
    DrawLimitReached,
}

/// The mathematical content of an [`AegixPassError`].
pub enum AegixPassErrorView {
    InputEmpty,
    LengthTooShort(nat, nat),
    EmptyCharset,
    PresetParseError(Seq<char>),
    TooManyCharsetGroups(nat, nat),
    Argon2Error(Seq<char>),
    ScryptError(Seq<char>),
    DrawLimitReached,
}

impl View for AegixPassError {
    type V = AegixPassErrorView;

    open spec fn view(&self) -> AegixPassErrorView {
        match self {
            AegixPassError::InputEmpty => AegixPassErrorView::InputEmpty,
            AegixPassError::LengthTooShort(length, groups) => AegixPassErrorView::LengthTooShort(
                *length as nat,
                *groups as nat,
            ),
            AegixPassError::EmptyCharset => AegixPassErrorView::EmptyCharset,
            AegixPassError::PresetParseError(detail) => AegixPassErrorView::PresetParseError(
                detail@,
            ),
            AegixPassError::TooManyCharsetGroups(groups, supported) =>
                AegixPassErrorView::TooManyCharsetGroups(*groups as nat, *supported as nat),
            AegixPassError::Argon2Error(detail) => AegixPassErrorView::Argon2Error(detail@),
            AegixPassError::ScryptError(detail) => AegixPassErrorView::ScryptError(detail@),
            AegixPassError::DrawLimitReached => AegixPassErrorView::DrawLimitReached,
        }
    }
}

} // verus!
