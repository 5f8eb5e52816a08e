//! What the command line asks for: the interface, or one request.
use vstd::prelude::*;
use crate::method::{HttpMethod, UnsupportedMethod, parse_method_spec, ascii_upper_seq, label_spec};
use crate::project::MatchedOperation;

verus! {

/// What the program is asked to do.
#[derive(Debug, PartialEq, Eq)]
pub enum Command {
    /// Open the interface.
    Tui,
    /// Send one request and print the response.
    Request { method: HttpMethod, url: String },
}

/// The command for the parsed arguments: the `-X` method (`GET` when not given) and the
/// URL, if any. A URL asks for one request with the method; no URL opens the interface.
/// The method must name a supported method even then.
pub fn command_from_args(method: &str, url: Option<String>) -> (r: Result<Command, UnsupportedMethod>)
    ensures
        match r {
            Ok(Command::Tui) => parse_method_spec(method@) is Some && url is None,
            Ok(Command::Request { method: m, url: u }) => parse_method_spec(method@) == Some(m)
                && url is Some && u@ == url->0@,
            Err(e) => parse_method_spec(method@) is None && e.value@ == ascii_upper_seq(method@),
        },
{
    let m = match HttpMethod::parse(method) {
        Ok(m) => m,
        Err(e) => return Err(e),
    };
    match url {
        Some(u) => Ok(Command::Request { method: m, url: u }),
        None => Ok(Command::Tui),
    }
}


/// The parsed command-line arguments: the `-X` method and the URL, if any.
#[derive(Debug)]
pub struct Args {
    pub method: String,
    pub url: Option<String>,
}

impl Args {
    /// The command these arguments ask for (see `command_from_args`).
    pub fn command(self) -> (r: Result<Command, UnsupportedMethod>)
        ensures
            match r {
                Ok(Command::Tui) => parse_method_spec(self.method@) is Some && self.url is None,
                Ok(Command::Request { method: m, url: u }) => parse_method_spec(self.method@) == Some(m)
                    && self.url is Some && u@ == self.url->0@,
                Err(e) => parse_method_spec(self.method@) is None && e.value@ == ascii_upper_seq(self.method@),
            },
    {
        command_from_args(self.method.as_str(), self.url)
    }
}


/// The report printed before a request is sent from the command line: the operation the
/// URL matched (method label, path template and summary), or that none matched.
pub open spec fn match_message_spec(method: HttpMethod, url: Seq<char>, matched: Option<(Seq<char>, Seq<char>)>) -> Seq<char> {
    match matched {
        Some(m) => seq!['M', 'a', 't', 'c', 'h', 'e', 'd', ' ', 'O', 'p', 'e', 'n', 'A', 'P', 'I', ':', ' ']
            + label_spec(method) + seq![' '] + m.0 + seq![' ', '-', ' '] + m.1,
        None => seq!['N', 'o', ' ', 'm', 'a', 't', 'c', 'h', 'i', 'n', 'g', ' ', 'O', 'p', 'e', 'n', 'A', 'P', 'I', ' ',
            'o', 'p', 'e', 'r', 'a', 't', 'i', 'o', 'n', ' ', 'f', 'o', 'u', 'n', 'd', ' ', 'f', 'o', 'r', ' ']
            + label_spec(method) + seq![' '] + url,
    }
}

/// The report printed before a request is sent from the command line (see
/// `match_message_spec`).
pub fn match_message(method: HttpMethod, url: &str, matched: &Option<MatchedOperation>) -> (r: String)
    ensures
        r@ == match_message_spec(method, url@, match matched {
            Some(m) => Some((m.operation.path@, m.operation.summary@)),
            None => None,
        }),
{
    proof {
        reveal_strlit("Matched OpenAPI: ");
        reveal_strlit("No matching OpenAPI operation found for ");
        reveal_strlit(" ");
        reveal_strlit(" - ");
        assert("Matched OpenAPI: "@ =~= seq!['M', 'a', 't', 'c', 'h', 'e', 'd', ' ', 'O', 'p', 'e', 'n', 'A', 'P', 'I', ':', ' ']);
        assert("No matching OpenAPI operation found for "@ =~= seq!['N', 'o', ' ', 'm', 'a', 't', 'c', 'h', 'i', 'n', 'g', ' ', 'O', 'p', 'e', 'n', 'A', 'P', 'I', ' ',
            'o', 'p', 'e', 'r', 'a', 't', 'i', 'o', 'n', ' ', 'f', 'o', 'u', 'n', 'd', ' ', 'f', 'o', 'r', ' ']);
        assert(" "@ =~= seq![' ']);
        assert(" - "@ =~= seq![' ', '-', ' ']);
    }
    match matched {
        Some(m) => {
            let mut r = String::from_str("Matched OpenAPI: ");
            r.append(method.label());
            r.append(" ");
            r.append(m.operation.path.as_str());
            r.append(" - ");
            r.append(m.operation.summary.as_str());
            r
        },
        None => {
            let mut r = String::from_str("No matching OpenAPI operation found for ");
            r.append(method.label());
            r.append(" ");
            r.append(url);
            r
        },
    }
}

} // verus!
