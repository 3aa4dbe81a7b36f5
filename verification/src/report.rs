//! What is reported when the bot's two services have ended.
//!
//! The chat connection and the web listener run side by side. A service that
//! ends with a failure is reported, the chat connection first; one that ends
//! without a failure is passed over in silence.

use vstd::prelude::*;
use vstd::string::StringExecFns;

verus! {

/// What stands before the failure of the chat connection.
pub const CLIENT_FAILURE: &'static str = "Discord client error: ";

/// What stands before the failure of the web listener.
pub const SERVER_FAILURE: &'static str = "Error starting web server: ";

/// The line for one service: its heading and the failure, or nothing where
/// the service did not fail.
pub open spec fn failure_line(heading: Seq<char>, failure: Option<Seq<char>>) -> Seq<Seq<char>> {
    match failure {
        Some(why) => seq![heading + why],
        None => seq![],
    }
}

/// The lines for both services, the chat connection first.
pub open spec fn report_lines(client: Option<Seq<char>>, server: Option<Seq<char>>) -> Seq<
    Seq<char>,
> {
    failure_line(CLIENT_FAILURE@, client) + failure_line(SERVER_FAILURE@, server)
}

/// A failure as the sequence of its characters.
pub open spec fn failure_view(failure: Option<&str>) -> Option<Seq<char>> {
    match failure {
        Some(why) => Some(why@),
        None => None,
    }
}

/// The lines to report, given how the chat connection and the web listener
/// ended: for each, the description of its failure, or `None`.
pub fn failure_report(client: Option<&str>, server: Option<&str>) -> (lines: Vec<String>)
    ensures
        lines.deep_view() == report_lines(failure_view(client), failure_view(server)),
{
    let mut lines: Vec<String> = Vec::new();
    if let Some(why) = client {
        let mut line = String::from_str(CLIENT_FAILURE);
        line.append(why);
        lines.push(line);
    }
    if let Some(why) = server {
        let mut line = String::from_str(SERVER_FAILURE);
        line.append(why);
        lines.push(line);
    }
    assert(lines.deep_view() =~= report_lines(failure_view(client), failure_view(server)));
    lines
}

} // verus!
