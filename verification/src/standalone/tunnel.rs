//! The outer side of a tunnel: a TCP connection that is passed on to a client.

use crate::event::News;
use crate::event::StreamEvent;
use crate::util;
use vstd::prelude::*;
use vstd::slice::*;

verus! {

/// A TCP connection that is passed on to a client.
#[derive(Debug)]
pub struct Tunnel {
    pub id: String,
}

/// The news when `read` was read from the connection, which is `None` where
/// reading failed.
pub open spec fn news_of_read(id: Seq<char>, read: Option<Seq<u8>>) -> News {
    match read {
        Some(data) => News::Data { id, data },
        None => News::Close { id },
    }
}

/// The news when a connection was opened, to which the channel `sender` leads.
pub open spec fn news_of_opening(id: Seq<char>, sender: Seq<char>) -> News {
    News::New { id, sender }
}

/// What is to be written to the connection when there is news from the client.
pub open spec fn written_for(news: News) -> Option<Seq<u8>> {
    match news {
        News::Data { data, .. } => Some(data),
        _ => None,
    }
}

/// The news when data was written to the connection, or that failed.
pub open spec fn news_of_writing(id: Seq<char>, success: bool) -> Option<News> {
    if success {
        None
    } else {
        Some(News::Close { id })
    }
}

impl Tunnel {
    /// A tunnel with a fresh id.
    pub fn new() -> (r: Self)
        ensures
            util::is_uuid_text(r.id@),
    {
        Tunnel { id: util::random_token() }
    }

    /// Tells the client of the connection, and the channel that leads to it.
    pub fn opened(&self, sender: String) -> (r: StreamEvent)
        ensures
            r@ == (News::New { id: self.id@, sender: sender@ }),
            r@ == news_of_opening(self.id@, sender@),
    {
        StreamEvent::New { id: self.id.clone(), sender }
    }

    /// Passes on what was read, which is `None` where reading failed. In that
    /// case the connection ends.
    pub fn on_read(&self, read: Option<&[u8]>) -> (r: StreamEvent)
        ensures
            r@ == news_of_read(
                self.id@,
                (match read {
                    Some(data) => Some(data@),
                    None => None,
                }),
            ),
    {
        match read {
            Some(data) => StreamEvent::Data { id: self.id.clone(), data: slice_to_vec(data) },
            None => StreamEvent::Close { id: self.id.clone() },
        }
    }

    /// What is to be written to the connection. The connection ends where there
    /// is nothing to be written.
    pub fn on_event(&self, event: StreamEvent) -> (r: Option<Vec<u8>>)
        requires
            !(event is New),
        ensures
            match (r, event@) {
                (Some(data), News::Data { data: written, .. }) => data@ == written,
                (None, News::Close { .. }) => true,
                _ => false,
            },
            match (r, written_for(event@)) {
                (Some(data), Some(written)) => data@ == written,
                (None, None) => true,
                _ => false,
            },
    {
        match event {
            StreamEvent::Data { data, .. } => Some(data),
            _ => None,
        }
    }

    /// Data was written to the connection, or that failed. The connection ends
    /// where there is news for the client.
    pub fn on_written(&self, success: bool) -> (r: Option<StreamEvent>)
        ensures
            r is Some <==> !success,
            r matches Some(event) ==> event@ == (News::Close { id: self.id@ }),
            match (r, news_of_writing(self.id@, success)) {
                (Some(event), Some(news)) => event@ == news,
                (None, None) => true,
                _ => false,
            },
    {
        if success {
            None
        } else {
            Some(StreamEvent::Close { id: self.id.clone() })
        }
    }
}

/// What is read from a connection is passed on whole, also where it is empty; a
/// connection that cannot be read is closed.
pub proof fn law_reads_are_passed_on(id: Seq<char>, data: Seq<u8>)
    ensures
        news_of_read(id, Some(data)) == (News::Data { id, data }),
        news_of_read(id, None) == (News::Close { id }),
{
}

/// What the client sends for a connection is written to it whole; its end ends
/// the connection. The client is told of a connection that cannot be written to,
/// and of nothing else, and of each new connection with its channel.
pub proof fn law_writing_to_a_connection(id: Seq<char>, sender: Seq<char>, data: Seq<u8>)
    ensures
        written_for(News::Data { id, data }) == Some(data),
        written_for(News::Close { id }) is None,
        news_of_writing(id, true) is None,
        news_of_writing(id, false) == Some(News::Close { id }),
        news_of_opening(id, sender) == (News::New { id, sender }),
{
}

} // verus!
