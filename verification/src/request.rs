use vstd::prelude::*;

verus! {

/// The browser identification every fetch sends, so that naive bot filters
/// do not turn the request away.
pub open spec fn user_agent_text() -> Seq<char> {
    "Mozilla/5.0 (X11; Linux x86_64) AppleWebKit/537.36 (KHTML, like Gecko) Chrome/112.0.0.0 Safari/537.36"@
}

/// The browser identification every fetch sends.
pub fn user_agent() -> (s: &'static str)
    ensures
        s@ == user_agent_text(),
{
    "Mozilla/5.0 (X11; Linux x86_64) AppleWebKit/537.36 (KHTML, like Gecko) Chrome/112.0.0.0 Safari/537.36"
}

/// The header name the identification travels under.
pub open spec fn user_agent_header_text() -> Seq<char> {
    "user-agent"@
}

/// The header name the identification travels under.
pub fn user_agent_header() -> (s: &'static str)
    ensures
        s@ == user_agent_header_text(),
{
    "user-agent"
}

} // verus!
