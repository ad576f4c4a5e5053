//! Menus of page links, written as HTML lists.
use vstd::prelude::*;
use vstd::string::*;

use crate::entity::{escape, escaped};

verus! {

/// Append `s` to the buffer.
pub fn write(f: &mut String, s: &str)
    ensures
        final(f)@ == old(f)@ + s@,
{
    f.append(s);
}

/// The opening tag of a menu list named `name`.
pub open spec fn start_tag(name: Seq<char>) -> Seq<char> {
    "<ul class=\""@ + escaped(name) + "\">"@
}

/// The closing tag of a menu list.
pub open spec fn end_tag() -> Seq<char> {
    "</ul>"@
}

/// The list item of a page: a link to `href` through the `link` helper,
/// so that it resolves relative to the page that embeds the menu, with the
/// page's escaped title as text and title; an empty item for a page
/// without a title.
pub open spec fn item(href: Seq<char>, title: Option<Seq<char>>) -> Seq<char> {
    match title {
        Some(t) => "<li>"@ + "<a href=\"{{ link \""@ + href + "\" }}\" title=\""@ + escaped(t)
            + "\">"@ + escaped(t) + "</a>"@ + "</li>"@,
        None => "<li>"@ + "</li>"@,
    }
}

/// The list items of the pages, in order.
pub open spec fn items(pages: Seq<(String, Option<String>)>) -> Seq<char>
    decreases pages.len(),
{
    if pages.len() == 0 {
        Seq::empty()
    } else {
        items(pages.drop_last()) + item(
            pages.last().0@,
            match pages.last().1 {
                Some(t) => Some(t@),
                None => None,
            },
        )
    }
}

/// Open a menu list named `name`.
pub fn start_list(f: &mut String, name: &str)
    ensures
        final(f)@ == old(f)@ + start_tag(name@),
{
    write(f, "<ul class=\"");
    let e = escape(name);
    write(f, e.as_str());
    write(f, "\">");
    assert(f@ =~= old(f)@ + start_tag(name@));
}

/// Write the list items of `pages`, each an href and the page's title.
pub fn pages_list(f: &mut String, pages: &Vec<(String, Option<String>)>)
    ensures
        final(f)@ == old(f)@ + items(pages@),
{
    let mut i: usize = 0;
    proof {
        assert(old(f)@ + items(pages@.take(0)) =~= old(f)@);
    }
    while i < pages.len()
        invariant
            i <= pages@.len(),
            f@ == old(f)@ + items(pages@.take(i as int)),
        decreases pages@.len() - i,
    {
        let ghost before = f@;
        write(f, "<li>");
        if let Some(title) = &pages[i].1 {
            let link_title = escape(title.as_str());
            write(f, "<a href=\"{{ link \"");
            write(f, pages[i].0.as_str());
            write(f, "\" }}\" title=\"");
            write(f, link_title.as_str());
            write(f, "\">");
            write(f, link_title.as_str());
            write(f, "</a>");
        }
        write(f, "</li>");
        proof {
            let t = pages@.take(i + 1);
            assert(t.drop_last() =~= pages@.take(i as int));
            assert(t.last() == pages@[i as int]);
            assert(f@ =~= before + item(
                pages@[i as int].0@,
                match pages@[i as int].1 {
                    Some(t) => Some(t@),
                    None => None,
                },
            ));
            assert(f@ =~= old(f)@ + items(t));
        }
        i = i + 1;
    }
    proof {
        assert(pages@.take(pages@.len() as int) =~= pages@);
    }
}

/// Close a menu list.
pub fn end_list(f: &mut String)
    ensures
        final(f)@ == old(f)@ + end_tag(),
{
    write(f, "</ul>");
}

/// The HTML of a menu of pages named `name`: the list with an item for
/// each page, each an href and the page's title.
pub fn pages_menu(name: &str, pages: &Vec<(String, Option<String>)>) -> (r: String)
    ensures
        r@ == start_tag(name@) + items(pages@) + end_tag(),
{
    let mut buf = String::new();
    start_list(&mut buf, name);
    pages_list(&mut buf, pages);
    end_list(&mut buf);
    assert(buf@ =~= start_tag(name@) + items(pages@) + end_tag());
    buf
}

} // verus!
