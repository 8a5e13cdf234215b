//! Classification of the URI-like references a scene document may contain.
//!
//! A reference with no `:` is relative; `data:` URIs carry a base64 payload
//! and an optional media type; `file:` and `http(s):` name external
//! locations; any other scheme is unsupported.

use vstd::prelude::*;
use vstd::string::*;

use crate::text::{find_from, find_pattern, has_prefix, match_at, str_contains_char};

verus! {

/// Spec-level value of a classified reference, over character sequences.
pub ghost enum SchemeV {
    /// `data:[<media type>];base64,<payload>`.
    Data(Option<Seq<char>>, Seq<char>),
    /// `file:[//]<absolute file path>`.
    File(Seq<char>),
    /// A plain relative path, to be resolved against a base directory.
    Relative,
    /// `http[s]://<host>/<path>`.
    External(Seq<char>),
    /// Any other scheme.
    Unsupported,
}

pub open spec fn data_prefix() -> Seq<char> {
    seq!['d', 'a', 't', 'a', ':']
}

pub open spec fn base64_marker() -> Seq<char> {
    seq![';', 'b', 'a', 's', 'e', '6', '4', ',']
}

pub open spec fn file_authority_prefix() -> Seq<char> {
    seq!['f', 'i', 'l', 'e', ':', '/', '/']
}

pub open spec fn file_prefix() -> Seq<char> {
    seq!['f', 'i', 'l', 'e', ':']
}

pub open spec fn http_prefix() -> Seq<char> {
    seq!['h', 't', 't', 'p', ':']
}

pub open spec fn https_prefix() -> Seq<char> {
    seq!['h', 't', 't', 'p', 's', ':']
}

/// The reference kind a URI falls under.
///
/// A string without `:` is relative. A `data:` URI is split at the first
/// `;base64,`: the part before it is the media type, the part after it the
/// payload; a `data:` prefix with no following payload segment is
/// unsupported. `file:` URIs keep the path after the prefix,
/// `http:`/`https:` URIs are kept whole, and any other scheme is
/// unsupported.
pub open spec fn classify(s: Seq<char>) -> SchemeV {
    if !s.contains(':') {
        SchemeV::Relative
    } else if has_prefix(s, data_prefix()) {
        let rest = s.skip(5);
        match find_from(rest, base64_marker(), 0) {
            Some(i) => SchemeV::Data(Some(rest.take(i as int)), rest.skip(i + 8int)),
            None => SchemeV::Unsupported,
        }
    } else if has_prefix(s, file_authority_prefix()) {
        SchemeV::File(s.skip(7))
    } else if has_prefix(s, file_prefix()) {
        SchemeV::File(s.skip(5))
    } else if has_prefix(s, http_prefix()) || has_prefix(s, https_prefix()) {
        SchemeV::External(s)
    } else {
        SchemeV::Unsupported
    }
}

/// The set of URI schemes the importer supports.
#[derive(Clone, Debug, Eq, Hash, PartialEq)]
pub enum Scheme {
    /// `data:[<media type>];base64,<payload>`.
    Data(Option<String>, String),
    /// `file:[//]<absolute file path>`.
    ///
    /// Note: the file scheme does not implement authority.
    File(String),
    /// `../foo`, etc.
    Relative,
    /// `http[s]://<host>/<path>`.
    External(String),
    /// Placeholder for an unsupported URI scheme identifier.
    Unsupported,
}

impl View for Scheme {
    type V = SchemeV;

    open spec fn view(&self) -> SchemeV {
        match self {
            Scheme::Data(media, payload) => SchemeV::Data(
                match media {
                    Some(m) => Some(m@),
                    None => None,
                },
                payload@,
            ),
            Scheme::File(path) => SchemeV::File(path@),
            Scheme::Relative => SchemeV::Relative,
            Scheme::External(url) => SchemeV::External(url@),
            Scheme::Unsupported => SchemeV::Unsupported,
        }
    }
}

impl Scheme {
    /// Classifies a URI string.
    pub fn parse(uri: &str) -> (r: Scheme)
        ensures
            r@ == classify(uri@),
    {
        if !str_contains_char(uri, ':') {
            return Scheme::Relative;
        }
        let n: usize = uri.unicode_len();
        let data_pat: Vec<char> = vec!['d', 'a', 't', 'a', ':'];
        proof {
            assert(data_pat@ =~= data_prefix());
        }
        if n >= 5 && match_at(uri, 0, &data_pat) {
            let rest = uri.substring_char(5, n);
            proof {
                assert(rest@ =~= uri@.skip(5));
            }
            let rn: usize = rest.unicode_len();
            let marker: Vec<char> = vec![';', 'b', 'a', 's', 'e', '6', '4', ','];
            proof {
                assert(marker@ =~= base64_marker());
            }
            return match find_pattern(rest, 0, &marker) {
                Some(i) => {
                    let media = rest.substring_char(0, i).to_owned();
                    let payload = rest.substring_char(i + 8, rn).to_owned();
                    proof {
                        assert(media@ =~= rest@.take(i as int));
                        assert(payload@ =~= rest@.skip(i + 8));
                    }
                    Scheme::Data(Some(media), payload)
                },
                None => Scheme::Unsupported,
            };
        }
        let file_auth_pat: Vec<char> = vec!['f', 'i', 'l', 'e', ':', '/', '/'];
        proof {
            assert(file_auth_pat@ =~= file_authority_prefix());
        }
        if n >= 7 && match_at(uri, 0, &file_auth_pat) {
            let path = uri.substring_char(7, n).to_owned();
            proof {
                assert(path@ =~= uri@.skip(7));
            }
            return Scheme::File(path);
        }
        let file_pat: Vec<char> = vec!['f', 'i', 'l', 'e', ':'];
        proof {
            assert(file_pat@ =~= file_prefix());
        }
        if n >= 5 && match_at(uri, 0, &file_pat) {
            let path = uri.substring_char(5, n).to_owned();
            proof {
                assert(path@ =~= uri@.skip(5));
            }
            return Scheme::File(path);
        }
        let http_pat: Vec<char> = vec!['h', 't', 't', 'p', ':'];
        proof {
            assert(http_pat@ =~= http_prefix());
        }
        if n >= 5 && match_at(uri, 0, &http_pat) {
            return Scheme::External(uri.to_owned());
        }
        let https_pat: Vec<char> = vec!['h', 't', 't', 'p', 's', ':'];
        proof {
            assert(https_pat@ =~= https_prefix());
        }
        if n >= 6 && match_at(uri, 0, &https_pat) {
            return Scheme::External(uri.to_owned());
        }
        Scheme::Unsupported
    }
}

} // verus!
