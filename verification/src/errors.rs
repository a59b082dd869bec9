//! The closed taxonomy of failures the protocol core can report, together
//! with its mathematical view used by the contracts.

use vstd::prelude::*;

verus! {

/// Everything that can go wrong in one command round trip, exactly one kind
/// per failed operation. The string-carrying kinds hold the underlying
/// message verbatim: the system message for a failed connect, the parser's
/// message for an unparsable reply, and the player's own error text.
#[derive(Debug, PartialEq)]
pub enum ErrorCode {
    MpvError(String),
    JsonParseError(String),
    ConnectError(String),
    JsonContainsUnexptectedType,
    UnexpectedResult,
    UnexpectedValue,
    UnsupportedType,
    ValueDoesNotContainBool,
    ValueDoesNotContainF64,
    ValueDoesNotContainHashMap,
    ValueDoesNotContainPlaylist,
    ValueDoesNotContainString,
    ValueDoesNotContainUsize,
}

/// Mathematical view of `ErrorCode`: the same kinds, with each carried
/// message seen as its character sequence.
pub enum ErrorCodeView {
    MpvError(Seq<char>),
    JsonParseError(Seq<char>),
    ConnectError(Seq<char>),
    JsonContainsUnexptectedType,
    UnexpectedResult,
    UnexpectedValue,
    UnsupportedType,
    ValueDoesNotContainBool,
    ValueDoesNotContainF64,
    ValueDoesNotContainHashMap,
    ValueDoesNotContainPlaylist,
    ValueDoesNotContainString,
    ValueDoesNotContainUsize,
}

impl View for ErrorCode {
    type V = ErrorCodeView;

    open spec fn view(&self) -> ErrorCodeView {
        match self {
            ErrorCode::MpvError(s) => ErrorCodeView::MpvError(s@),
            ErrorCode::JsonParseError(s) => ErrorCodeView::JsonParseError(s@),
            ErrorCode::ConnectError(s) => ErrorCodeView::ConnectError(s@),
            ErrorCode::JsonContainsUnexptectedType => ErrorCodeView::JsonContainsUnexptectedType,
            ErrorCode::UnexpectedResult => ErrorCodeView::UnexpectedResult,
            ErrorCode::UnexpectedValue => ErrorCodeView::UnexpectedValue,
            ErrorCode::UnsupportedType => ErrorCodeView::UnsupportedType,
            ErrorCode::ValueDoesNotContainBool => ErrorCodeView::ValueDoesNotContainBool,
            ErrorCode::ValueDoesNotContainF64 => ErrorCodeView::ValueDoesNotContainF64,
            ErrorCode::ValueDoesNotContainHashMap => ErrorCodeView::ValueDoesNotContainHashMap,
            ErrorCode::ValueDoesNotContainPlaylist => ErrorCodeView::ValueDoesNotContainPlaylist,
            ErrorCode::ValueDoesNotContainString => ErrorCodeView::ValueDoesNotContainString,
            ErrorCode::ValueDoesNotContainUsize => ErrorCodeView::ValueDoesNotContainUsize,
        }
    }
}

/// The view of a round-trip outcome: success carries nothing, failure an
/// `ErrorCodeView`.
pub open spec fn outcome_view(r: Result<(), ErrorCode>) -> Result<(), ErrorCodeView> {
    match r {
        Ok(()) => Ok(()),
        Err(e) => Err(e@),
    }
}

} // verus!
