//! Lines for the log.
use crate::http::{optional_str, Reply};
use crate::text::{
    decimal, decimal_of, law_decimal_reads_back, optional, parsed_u16, push_text,
};
use vstd::prelude::*;

verus! {

/// What is said of a page: whether its script threw, and what it gave otherwise.
pub open spec fn page_line(threw: bool, page: Option<Seq<char>>) -> Seq<char> {
    if threw {
        "[diag] evaluateJavaScript error"@
    } else {
        match page {
            Some(text) => "[diag] page: "@ + text,
            None => "[diag] empty result"@,
        }
    }
}

/// Whether the script with `label` threw.
pub open spec fn script_line(label: Seq<char>, threw: bool) -> Seq<char> {
    "[eval] "@ + label + (if threw {
        ": THREW"@
    } else {
        ": ran"@
    })
}

/// That an engine could not be attached to, and why.
pub open spec fn attach_line(reason: Seq<char>) -> Seq<char> {
    "attach failed ("@ + reason + "), falling back to standalone"@
}

/// What is to be said of the reply to the exchange of a token.
pub open spec fn exchange_line(reply: Option<Reply>) -> Option<Seq<char>> {
    match reply {
        Some(r) => if r.status == 303 {
            None
        } else {
            Some("auth exchange: unexpected status "@ + decimal(r.status as nat))
        },
        None => None,
    }
}

/// The script that gives the title of the page and the first of its text.
pub fn page_script() -> (s: String)
    ensures
        s@
            == "(document.title||'')+'|'+(document.body&&document.body.innerText||'').replace(/\\n/g,' ').slice(0,160)"@,
{
    "(document.title||'')+'|'+(document.body&&document.body.innerText||'').replace(/\\n/g,' ').slice(0,160)".to_string()
}

/// What that script found: whether it threw, and what it gave otherwise.
pub fn page_report(threw: bool, page: Option<&str>) -> (line: String)
    ensures
        line@ == (if threw {
            "[diag] evaluateJavaScript error"@
        } else {
            match page {
                Some(text) => "[diag] page: "@ + text@,
                None => "[diag] empty result"@,
            }
        }),
        line@ == page_line(threw, optional_str(page)),
{
    if threw {
        return "[diag] evaluateJavaScript error".to_string();
    }
    match page {
        Some(text) => {
            let mut line = "[diag] page: ".to_string();
            push_text(&mut line, text);
            line
        },
        None => "[diag] empty result".to_string(),
    }
}

/// Whether the script with `label` threw.
pub fn script_report(label: &str, threw: bool) -> (line: String)
    ensures
        line@ == "[eval] "@ + label@ + (if threw {
            ": THREW"@
        } else {
            ": ran"@
        }),
        line@ == script_line(label@, threw),
{
    let mut line = "[eval] ".to_string();
    push_text(&mut line, label);
    if threw {
        push_text(&mut line, ": THREW");
    } else {
        push_text(&mut line, ": ran");
    }
    line
}

/// That an engine could not be attached to, and why.
pub fn attach_report(reason: &str) -> (line: String)
    ensures
        line@ == "attach failed ("@ + reason@ + "), falling back to standalone"@,
        line@ == attach_line(reason@),
{
    let mut line = "attach failed (".to_string();
    push_text(&mut line, reason);
    push_text(&mut line, "), falling back to standalone");
    line
}

/// What is to be said of the reply to the exchange of a token: that its status is not that of
/// the redirect which sets the cookie. Nothing is said of that redirect, nor where there is no
/// reply.
pub fn exchange_report(reply: &Option<Reply>) -> (line: Option<String>)
    ensures
        optional(line) == match *reply {
            Some(r) => if r.status == 303 {
                None
            } else {
                Some("auth exchange: unexpected status "@ + decimal(r.status as nat))
            },
            None => None,
        },
        optional(line) == exchange_line(*reply),
{
    match reply {
        Some(r) => {
            if r.status == 303 {
                None
            } else {
                let mut line = "auth exchange: unexpected status ".to_string();
                push_text(&mut line, decimal_of(r.status).as_str());
                Some(line)
            }
        },
        None => None,
    }
}

/// A line on a page holds the whole of what was found on it, and one on a script its label.
pub proof fn law_lines_hold_what_was_found(text: Seq<char>, label: Seq<char>)
    ensures
        page_line(false, Some(text)) == "[diag] page: "@ + text,
        page_line(false, None) == "[diag] empty result"@,
        page_line(true, Some(text)) == "[diag] evaluateJavaScript error"@,
        page_line(true, None) == page_line(true, Some(text)),
        script_line(label, true) == "[eval] "@ + label + ": THREW"@,
        script_line(label, false) == "[eval] "@ + label + ": ran"@,
        attach_line(text) == "attach failed ("@ + text + "), falling back to standalone"@,
{
}

/// An exchange is told of exactly if it was answered by another status than that of the redirect,
/// and the line ends with that status.
pub proof fn law_unexpected_status_is_told(reply: Option<Reply>)
    ensures
        reply is None ==> exchange_line(reply) is None,
        reply matches Some(r) ==> (exchange_line(reply) is None <==> r.status == 303),
        exchange_line(reply) matches Some(line) ==> exists|d: Seq<char>| #[trigger]
            parsed_u16(d) == Some(reply->0.status) && line
                == "auth exchange: unexpected status "@ + d,
{
    if let Some(r) = reply {
        law_decimal_reads_back(r.status);
        assert(parsed_u16(decimal(r.status as nat)) == Some(r.status));
    }
}

} // verus!
