//! The outer side of a tunnel: a TCP connection that is passed on to a client.

use crate::event::News;
use crate::event::StreamEvent;
use crate::util;
use vstd::prelude::*;
use vstd::slice::*;

verus! {

/// A TCP connection that is passed on to a client.
#[derive(Debug)]
pub struct Tunnel {
    pub id: String,
}

/// The news when `read` was read from the connection, which is `None` where
/// reading failed. Nothing more is read once there is no news.
pub open spec fn news_of_read(id: Seq<char>, read: Option<Seq<u8>>) -> Option<News> {
    match read {
        Some(data) => if data.len() == 0 {
            None
        } else {
            Some(News::Data { id, data })
        },
        None => None,
    }
}

/// What is to be written to the connection when there is news from the client.
/// The connection ends where there is nothing to be written.
pub open spec fn written_for(news: News) -> Option<Seq<u8>> {
    match news {
        News::Data { data, .. } => Some(data),
        _ => None,
    }
}

/// The news when a connection was opened, to which the channel `sender` leads.
pub open spec fn news_of_opening(id: Seq<char>, sender: Seq<char>) -> News {
    News::New { id, sender }
}

/// The news when a connection has ended.
pub open spec fn news_of_end(id: Seq<char>) -> News {
    News::Close { id }
}

impl Tunnel {
    /// A tunnel with a fresh id.
    pub fn new() -> (r: Self)
        ensures
            util::is_uuid_text(r.id@),
    {
        Tunnel { id: util::random_token() }
    }

    /// Tells the client of the connection, and the channel that leads to it.
    pub fn opened(&self, sender: String) -> (r: StreamEvent)
        ensures
            r@ == (News::New { id: self.id@, sender: sender@ }),
            r@ == news_of_opening(self.id@, sender@),
    {
        StreamEvent::new(self.id.clone(), sender)
    }

    /// Passes on what was read, which is `None` where reading failed. The
    /// connection ends where there is nothing to pass on.
    pub fn on_read(&self, read: Option<&[u8]>) -> (r: Option<StreamEvent>)
        ensures
            match (r, news_of_read(self.id@, (match read {
                Some(data) => Some(data@),
                None => None,
            }))) {
                (Some(event), Some(news)) => event@ == news,
                (None, None) => true,
                _ => false,
            },
    {
        match read {
            Some(data) => {
                if data.len() == 0 {
                    None
                } else {
                    Some(StreamEvent::data(self.id.clone(), slice_to_vec(data)))
                }
            },
            None => None,
        }
    }

    /// What is to be written to the connection. The connection ends where there
    /// is nothing to be written.
    pub fn on_event(&self, event: StreamEvent) -> (r: Option<Vec<u8>>)
        ensures
            match (r, written_for(event@)) {
                (Some(data), Some(written)) => data@ == written,
                (None, None) => true,
                _ => false,
            },
    {
        match event {
            StreamEvent::Data { data, .. } => Some(data),
            _ => None,
        }
    }

    /// Tells the client that the connection has ended.
    pub fn closed(self) -> (r: StreamEvent)
        ensures
            r@ == (News::Close { id: self.id@ }),
            r@ == news_of_end(self.id@),
    {
        StreamEvent::close(self.id)
    }
}

/// What is read from a connection is passed on whole, and a connection ends
/// exactly if reading it failed or there was nothing more to read.
pub proof fn law_reads_are_passed_on(id: Seq<char>, read: Option<Seq<u8>>)
    ensures
        news_of_read(id, read) is None <==> read is None || read->0.len() == 0,
        news_of_read(id, read) matches Some(news) ==> news == (News::Data { id, data: read->0 }),
{
}

/// What the client sends for a connection is written to it whole, and only its
/// data is; anything else ends the connection.
pub proof fn law_only_data_is_written(id: Seq<char>, data: Seq<u8>, news: News)
    ensures
        written_for(News::Data { id, data }) == Some(data),
        written_for(news) is Some <==> news is Data,
        written_for(News::Close { id }) is None,
{
}

} // verus!
