//! The logical message unit of the wire protocol.
//!
//! A message is an ordered list of `(name, value)` headers — insertion order
//! matters on the wire — plus a body that is absent, UTF-8 text, or raw
//! binary.  A well-formed protocol message carries at least `X-RequestId`
//! and `Path`, and `Content-Type` whenever a body is present.

use vstd::prelude::*;

verus! {

/// The body of a message.
#[derive(Debug)]
pub enum Data {
    /// A text body, or none at all on a text frame.
    Text(Option<String>),
    /// A raw binary payload.
    Binary(Vec<u8>),
}

/// Mathematical image of [`Data`].
pub enum DataView {
    Text(Option<Seq<char>>),
    Binary(Seq<u8>),
}

impl View for Data {
    type V = DataView;

    open spec fn view(&self) -> DataView {
        match self {
            Data::Text(b) => DataView::Text(
                match b {
                    Some(s) => Some(s@),
                    None => None,
                },
            ),
            Data::Binary(p) => DataView::Binary(p@),
        }
    }
}

/// One logical message: ordered headers plus an optional body.  `id` and
/// `path` duplicate the values of the required `X-RequestId` and `Path`
/// headers for convenient access.
#[derive(Debug)]
pub struct Message {
    /// The request identifier, from the `X-RequestId` header.
    pub id: String,
    /// The message path, from the `Path` header.
    pub path: String,
    /// Every header, in wire order.
    pub headers: Vec<(String, String)>,
    /// The body.
    pub data: Data,
}

/// Mathematical image of [`Message`].
pub struct MessageView {
    pub id: Seq<char>,
    pub path: Seq<char>,
    pub headers: Seq<(Seq<char>, Seq<char>)>,
    pub data: DataView,
}

impl View for Message {
    type V = MessageView;

    open spec fn view(&self) -> MessageView {
        MessageView {
            id: self.id@,
            path: self.path@,
            headers: self.headers@.map_values(|p: (String, String)| (p.0@, p.1@)),
            data: self.data@,
        }
    }
}

/// The value of the first header named `name`, or `None`.
pub open spec fn spec_get_header(hs: Seq<(Seq<char>, Seq<char>)>, name: Seq<char>) -> Option<
    Seq<char>,
>
    decreases hs.len(),
{
    if hs.len() == 0 {
        None
    } else if hs[0].0 == name {
        Some(hs[0].1)
    } else {
        spec_get_header(hs.drop_first(), name)
    }
}

/// Whether some header in `hs` is named `name`.
pub open spec fn spec_has_header(hs: Seq<(Seq<char>, Seq<char>)>, name: Seq<char>) -> bool {
    spec_get_header(hs, name) is Some
}

/// Character-by-character string equality.
pub fn str_eq(a: &str, b: &str) -> (r: bool)
    ensures
        r == (a@ == b@),
{
    let la = a.unicode_len();
    let lb = b.unicode_len();
    if la != lb {
        return false;
    }
    let mut i: usize = 0;
    while i < la
        invariant
            la == a@.len() == b@.len(),
            0 <= i <= la,
            forall|j: int| 0 <= j < i ==> a@[j] == b@[j],
        decreases la - i,
    {
        if a.get_char(i) != b.get_char(i) {
            return false;
        }
        i = i + 1;
    }
    proof {
        assert(a@ =~= b@);
    }
    true
}

impl Message {
    /// The value of the first header named `name`, or `None`.
    pub fn get_header(&self, name: &str) -> (r: Option<&String>)
        ensures
            match r {
                Some(v) => spec_get_header(self@.headers, name@) == Some(v@),
                None => spec_get_header(self@.headers, name@) is None,
            },
    {
        let n = self.headers.len();
        let mut i: usize = 0;
        proof {
            assert(self@.headers.skip(0) =~= self@.headers);
        }
        while i < n
            invariant
                n == self.headers.len(),
                0 <= i <= n,
                spec_get_header(self@.headers, name@) == spec_get_header(
                    self@.headers.skip(i as int),
                    name@,
                ),
        decreases n - i,
        {
            proof {
                assert(self@.headers.skip(i as int).drop_first() =~= self@.headers.skip(
                    i as int + 1,
                ));
                assert(self@.headers.skip(i as int)[0] == self@.headers[i as int]);
            }
            if str_eq(self.headers[i].0.as_str(), name) {
                return Some(&self.headers[i].1);
            }
            i = i + 1;
        }
        proof {
            assert(self@.headers.skip(n as int) =~= Seq::<(Seq<char>, Seq<char>)>::empty());
        }
        None
    }
}

} // verus!
