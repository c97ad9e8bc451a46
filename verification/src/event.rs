//! What the two sides of a tunneled connection tell each other.

use vstd::prelude::*;

verus! {

/// News of a tunneled TCP connection, named by its id.
///
/// A channel on which such news can be sent is known by its name.
#[derive(Debug)]
pub enum StreamEvent {
    New { id: String, sender: String },
    Data { id: String, data: Vec<u8> },
    Close { id: String },
}

/// What a [`StreamEvent`] says.
#[verifier::ext_equal]
pub enum News {
    New { id: Seq<char>, sender: Seq<char> },
    Data { id: Seq<char>, data: Seq<u8> },
    Close { id: Seq<char> },
}

impl View for StreamEvent {
    type V = News;

    open spec fn view(&self) -> News {
        match self {
            StreamEvent::New { id, sender } => News::New { id: id@, sender: sender@ },
            StreamEvent::Data { id, data } => News::Data { id: id@, data: data@ },
            StreamEvent::Close { id } => News::Close { id: id@ },
        }
    }
}

impl StreamEvent {
    pub fn new(id: String, sender: String) -> (r: Self)
        ensures
            r@ == (News::New { id: id@, sender: sender@ }),
    {
        StreamEvent::New { id, sender }
    }

    pub fn data(id: String, data: Vec<u8>) -> (r: Self)
        ensures
            r@ == (News::Data { id: id@, data: data@ }),
    {
        StreamEvent::Data { id, data }
    }

    pub fn close(id: String) -> (r: Self)
        ensures
            r@ == (News::Close { id: id@ }),
    {
        StreamEvent::Close { id }
    }
}

} // verus!
