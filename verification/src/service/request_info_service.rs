//! What a request looks like to the server that received it.

use crate::service::connection_service::ConnectionID;
use vstd::prelude::*;
use vstd::string::StringExecFns;

verus! {

/// The version of HTTP that a request was made with.
#[derive(Clone, Copy, Debug, PartialEq, Eq, Structural)]
pub enum HttpVersion {
    Http09,
    Http10,
    Http11,
    Http2,
    Http3,
    /// Any version that has no name of its own here.
    Other,
}

/// The name under which a version of HTTP is reported.
pub open spec fn version_text(version: HttpVersion) -> Seq<char> {
    match version {
        HttpVersion::Http09 => "HTTP/0.9"@,
        HttpVersion::Http10 => "HTTP/1.0"@,
        HttpVersion::Http11 => "HTTP/1.1"@,
        HttpVersion::Http2 => "HTTP/2.0"@,
        HttpVersion::Http3 => "HTTP/3.0"@,
        HttpVersion::Other => "[Unknown]"@,
    }
}

/// Computes [`version_text`].
pub fn version_name(version: HttpVersion) -> (name: &'static str)
    ensures
        name@ == version_text(version),
{
    match version {
        HttpVersion::Http09 => "HTTP/0.9",
        HttpVersion::Http10 => "HTTP/1.0",
        HttpVersion::Http11 => "HTTP/1.1",
        HttpVersion::Http2 => "HTTP/2.0",
        HttpVersion::Http3 => "HTTP/3.0",
        HttpVersion::Other => "[Unknown]",
    }
}

/// One header line of a request.
#[derive(Debug)]
pub struct RequestHeader {
    pub name: String,
    /// The value, where it is text that can be shown.
    pub value: Option<String>,
}

/// The text that stands for the value of a header line.
pub open spec fn header_text(value: Option<String>) -> Seq<char> {
    match value {
        Some(text) => text@,
        None => "[Unknown]"@,
    }
}

/// The value reported for the header called `name`: the values of its lines
/// in their order, with `"; "` between them. `None` if there is no such
/// line.
pub open spec fn joined_header(headers: Seq<RequestHeader>, name: Seq<char>) -> Option<Seq<char>>
    decreases headers.len(),
{
    if headers.len() == 0 {
        None
    } else {
        let earlier = joined_header(headers.drop_last(), name);
        if headers.last().name@ == name {
            match earlier {
                Some(joined) => Some(joined + "; "@ + header_text(headers.last().value)),
                None => Some(header_text(headers.last().value)),
            }
        } else {
            earlier
        }
    }
}

/// The names of the header lines, each once, in the order in which they
/// first occur.
pub open spec fn header_names(headers: Seq<RequestHeader>) -> Seq<Seq<char>>
    decreases headers.len(),
{
    if headers.len() == 0 {
        Seq::empty()
    } else {
        let earlier = header_names(headers.drop_last());
        if earlier.contains(headers.last().name@) {
            earlier
        } else {
            earlier.push(headers.last().name@)
        }
    }
}

/// Whether `joined` reports `headers`: one entry for each name, in the
/// order in which the names first occur, with the joined values of that
/// name.
pub open spec fn joins_headers(joined: Seq<(String, String)>, headers: Seq<RequestHeader>) -> bool {
    &&& joined.len() == header_names(headers).len()
    &&& forall|i: int|
        0 <= i < joined.len() ==> (#[trigger] joined[i]).0@ == header_names(headers)[i]
            && joined_header(headers, joined[i].0@) == Some(joined[i].1@)
}

/// No name is listed twice, and exactly the listed names have a joined
/// value.
pub proof fn lemma_header_names(headers: Seq<RequestHeader>)
    ensures
        header_names(headers).no_duplicates(),
        forall|name: Seq<char>|
            header_names(headers).contains(name) <==> #[trigger] joined_header(
                headers,
                name,
            ) is Some,
    decreases headers.len(),
{
    if headers.len() > 0 {
        let earlier = headers.drop_last();
        lemma_header_names(earlier);
        let names = header_names(earlier);
        let last = headers.last().name@;
        assert forall|name: Seq<char>|
            header_names(headers).contains(name) <==> #[trigger] joined_header(
                headers,
                name,
            ) is Some by {
            assert(names.contains(name) <==> joined_header(earlier, name) is Some);
            if names.contains(last) {
            } else {
                let longer = names.push(last);
                assert(longer[names.len() as int] == last);
                if names.contains(name) {
                    let i = choose|i: int| 0 <= i < names.len() && names[i] == name;
                    assert(longer[i] == name);
                }
                if longer.contains(name) && name != last {
                    let i = choose|i: int| 0 <= i < longer.len() && longer[i] == name;
                    assert(names[i] == name);
                }
            }
        }
    }
}

/// The text that stands for the value of a header line.
fn header_value_text(value: &Option<String>) -> (text: String)
    ensures
        text@ == header_text(*value),
{
    match value {
        Some(text) => text.clone(),
        None => String::from_str("[Unknown]"),
    }
}

/// Looks for the entry of the header called `name`.
fn find_header(joined: &Vec<(String, String)>, name: &String) -> (found: Option<usize>)
    ensures
        match found {
            Some(place) => place < joined.len() && joined[place as int].0@ == name@,
            None => forall|i: int| 0 <= i < joined.len() ==> joined[i].0@ != name@,
        },
{
    let mut i: usize = 0;
    while i < joined.len()
        invariant
            i <= joined.len(),
            forall|j: int| 0 <= j < i ==> joined[j].0@ != name@,
        decreases joined.len() - i,
    {
        if joined[i].0 == *name {
            return Some(i);
        }
        i += 1;
    }
    None
}

/// Reports the header lines of a request by name: the values of lines with
/// the same name are joined with `"; "`, in the order of the lines, and a
/// value that cannot be shown as text is reported as `[Unknown]`.
pub fn build_request_headers(headers: &Vec<RequestHeader>) -> (joined: Vec<(String, String)>)
    ensures
        joins_headers(joined@, headers@),
{
    let mut joined: Vec<(String, String)> = Vec::new();
    let mut i: usize = 0;
    while i < headers.len()
        invariant
            i <= headers.len(),
            joins_headers(joined@, headers@.take(i as int)),
        decreases headers.len() - i,
    {
        let header = &headers[i];
        let ghost seen = headers@.take(i as int);
        let ghost longer = headers@.take(i + 1);
        let ghost before = joined@;
        proof {
            assert(longer.drop_last() =~= seen);
            assert(longer.last() == *header);
            lemma_header_names(seen);
        }
        let text = header_value_text(&header.value);
        match find_header(&joined, &header.name) {
            Some(place) => {
                let so_far = joined[place].1.clone();
                let value = so_far.concat("; ").concat(text.as_str());
                joined.set(place, (header.name.clone(), value));
                proof {
                    assert(header_names(seen)[place as int] == header.name@);
                    assert(header_names(seen).contains(header.name@));
                    assert forall|k: int| 0 <= k < joined@.len() implies (#[trigger] joined@[k]).0@
                        == header_names(longer)[k] && joined_header(longer, joined@[k].0@) == Some(
                        joined@[k].1@,
                    ) by {
                        if k != place {
                            assert(joined@[k] == before[k]);
                            assert(before[k].0@ == header_names(seen)[k]);
                        }
                    }
                }
            },
            None => {
                joined.push((header.name.clone(), text));
                proof {
                    if header_names(seen).contains(header.name@) {
                        let k = choose|k: int|
                            0 <= k < header_names(seen).len() && header_names(seen)[k]
                                == header.name@;
                        assert(before[k].0@ == header.name@);
                    }
                    assert(joined_header(seen, header.name@) is None);
                    assert forall|k: int| 0 <= k < joined@.len() implies (#[trigger] joined@[k]).0@
                        == header_names(longer)[k] && joined_header(longer, joined@[k].0@) == Some(
                        joined@[k].1@,
                    ) by {
                        if k < before.len() {
                            assert(joined@[k] == before[k]);
                        }
                    }
                }
            },
        }
        i += 1;
    }
    assert(headers@.take(i as int) =~= headers@);
    joined
}

/// The request line of a request and the connection that it came in on.
#[derive(Debug)]
pub struct RequestFieldsDTO {
    pub connection_id: usize,
    pub method: String,
    pub version: &'static str,
    pub original_uri: String,
}

/// A request as it is reported back to the caller.
#[derive(Debug)]
pub struct RequestInfoDTO {
    pub request_fields: RequestFieldsDTO,
    /// The headers by name, in the order in which the names first occur.
    pub request_headers: Vec<(String, String)>,
}

/// Reports a request: the connection that it came in on, its method, the
/// name of its HTTP version, the address it asked for, and its headers by
/// name.
pub fn request_info(
    connection_id: ConnectionID,
    original_uri: String,
    method: String,
    version: HttpVersion,
    headers: &Vec<RequestHeader>,
) -> (info: RequestInfoDTO)
    ensures
        info.request_fields.connection_id == connection_id@,
        info.request_fields.method == method,
        info.request_fields.version@ == version_text(version),
        info.request_fields.original_uri == original_uri,
        joins_headers(info.request_headers@, headers@),
{
    RequestInfoDTO {
        request_fields: RequestFieldsDTO {
            connection_id: connection_id.as_usize(),
            method,
            version: version_name(version),
            original_uri,
        },
        request_headers: build_request_headers(headers),
    }
}

} // verus!
