//! One email to send: envelope fields as the Injection API's schema wants
//! them. Owned outright by the `Request` that holds it.

use vstd::prelude::*;

verus! {

/// One email: sender, recipients, subject and plain-text body.
#[derive(Debug, Clone)]
pub struct Message {
    pub from: String,
    pub to: Vec<String>,
    pub subject: String,
    pub body: String,
}

/// The mathematical value of a `Message`: every field as a character
/// sequence, recipients in order.
pub struct MessageView {
    pub from: Seq<char>,
    pub to: Seq<Seq<char>>,
    pub subject: Seq<char>,
    pub body: Seq<char>,
}

impl View for Message {
    type V = MessageView;

    open spec fn view(&self) -> MessageView {
        MessageView {
            from: self.from@,
            to: self.to@.map_values(|s: String| s@),
            subject: self.subject@,
            body: self.body@,
        }
    }
}

} // verus!
