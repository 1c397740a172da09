//! Replies to HTTP requests.
use vstd::prelude::*;

verus! {

/// The reply to an HTTP request.
#[derive(Debug)]
pub struct Reply {
    /// The status code.
    pub status: u16,
    /// The header fields, in order.
    pub headers: Vec<(String, String)>,
    /// The body.
    pub body: String,
}

/// What a reply says.
pub struct ReplyView {
    /// See [`Reply::status`].
    pub status: u16,
    /// See [`Reply::headers`].
    pub headers: Seq<(Seq<char>, Seq<char>)>,
    /// See [`Reply::body`].
    pub body: Seq<char>,
}

/// Header fields by their characters.
pub open spec fn header_list(headers: Seq<(String, String)>) -> Seq<(Seq<char>, Seq<char>)> {
    headers.map_values(|h: (String, String)| (h.0@, h.1@))
}

impl View for Reply {
    type V = ReplyView;

    open spec fn view(&self) -> ReplyView {
        ReplyView { status: self.status, headers: header_list(self.headers@), body: self.body@ }
    }
}

/// Header fields of replies, put together one by one.
pub fn add_header(headers: &mut Vec<(String, String)>, name: &str, value: String)
    ensures
        header_list(final(headers)@) == header_list(old(headers)@).push((name@, value@)),
{
    headers.push((name.to_owned(), value));
    proof {
        assert(header_list(headers@) =~= header_list(old(headers)@).push((name@, value@)));
    }
}

impl ReplyView {
    /// A reply without header fields.
    pub open spec fn plain(status: u16, body: Seq<char>) -> ReplyView {
        ReplyView { status, headers: Seq::empty(), body }
    }
}

impl Reply {
    /// A reply without header fields.
    pub fn plain(status: u16, body: &str) -> (reply: Reply)
        ensures
            reply@ == ReplyView::plain(status, body@),
    {
        let headers: Vec<(String, String)> = Vec::new();
        proof {
            assert(header_list(headers@) =~= Seq::<(Seq<char>, Seq<char>)>::empty());
        }
        Reply { status, headers, body: String::from(body) }
    }
}

} // verus!
