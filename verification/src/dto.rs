//! The request and response bodies the service exchanges with its
//! callers, as plain values; their serialization lives with the
//! application.

use vstd::prelude::*;

verus! {

/// A caller's request to rename a conversation.
#[derive(Debug, Clone)]
pub struct EditTitleRequest {
    pub title: String,
}

/// A caller's request to render an image from text.
#[derive(Debug, Clone)]
pub struct ImageGenerationRequest {
    pub text: String,
}

/// Acknowledgement of a title change.
#[derive(Debug, Clone)]
pub struct EditTitleResponse {
    pub message: String,
}

/// Acknowledgement of a deletion.
#[derive(Debug, Clone)]
pub struct DeleteConversationResponse {
    pub message: String,
}

} // verus!
