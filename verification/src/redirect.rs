//! Redirect pages: a document that sends the browser to another location.
use vstd::prelude::*;
use vstd::string::*;

verus! {

/// The redirect document for `location`: a script that replaces the
/// document location on load, and a refresh for browsers without scripts.
pub open spec fn document(location: Seq<char>) -> Seq<char> {
    "<!doctype html>"@ + "<html>"@ + "<head>"@ + "<noscript><meta http-equiv=\"refresh\" content=\"0; "@
        + location + "\"></noscript>"@ + "</head>"@ + "<body onload=\"document.location.replace('"@
        + location + "');\"></body>"@ + "</html>"@
}

/// The redirect document for `location`.
pub fn content(location: &str) -> (r: String)
    ensures
        r@ == document(location@),
{
    let mut c = String::from_str("<!doctype html>");
    c.append("<html>");
    c.append("<head>");
    c.append("<noscript><meta http-equiv=\"refresh\" content=\"0; ");
    c.append(location);
    c.append("\"></noscript>");
    c.append("</head>");
    c.append("<body onload=\"document.location.replace('");
    c.append(location);
    c.append("');\"></body>");
    c.append("</html>");
    assert(c@ =~= document(location@));
    c
}

} // verus!
