//! The decisions of the plot layout menu: which mapping types exist, how
//! their widgets and icons are named, and which notebook page holds which
//! mapping.
use vstd::prelude::*;
use crate::numeric::{decimal_text, usize_text};
use crate::text::str_eq;

verus! {

/// The mapping types a plot can hold.
pub open spec fn is_mapping_type(t: Seq<char>) -> bool {
    ||| t == "line"@
    ||| t == "scatter"@
    ||| t == "bar"@
    ||| t == "area"@
    ||| t == "text"@
    ||| t == "surface"@
}

pub open spec fn msg_invalid_mapping() -> Seq<char> {
    "Invalid mapping type. Must be line|scatter|bar|area|text|surface"@
}

/// The name of the box that holds the widgets of a mapping type.
pub open spec fn mapping_box_name(t: Seq<char>) -> Seq<char> {
    t + "_box"@
}

/// The file of the icon of a mapping type.
pub open spec fn tab_image_file(t: Seq<char>) -> Seq<char> {
    "assets/icons/"@ + t + ".svg"@
}

/// Accepts `mapping_type` only when it is a mapping type, and gives the name of the box
/// that holds its widgets.
pub fn mapping_box(mapping_type: &str) -> (r: Result<String, &'static str>)
    ensures
        r is Ok <==> (mapping_type@ == "line"@ || mapping_type@ == "scatter"@ || mapping_type@
            == "bar"@ || mapping_type@ == "area"@ || mapping_type@ == "text"@ || mapping_type@
            == "surface"@),
        r matches Ok(b) ==> b@ == mapping_type@ + "_box"@,
        is_mapping_type(mapping_type@) ==> (r matches Ok(b) && b@ == mapping_box_name(
            mapping_type@,
        )),
        !is_mapping_type(mapping_type@) ==> (r matches Err(e) && e@ == msg_invalid_mapping()),
{
    let valid = str_eq(mapping_type, "line") || str_eq(mapping_type, "scatter") || str_eq(
        mapping_type,
        "bar",
    ) || str_eq(mapping_type, "area") || str_eq(mapping_type, "text") || str_eq(
        mapping_type,
        "surface",
    );
    if !valid {
        return Err("Invalid mapping type. Must be line|scatter|bar|area|text|surface");
    }
    let mut b = String::from_str(mapping_type);
    b.append("_box");
    Ok(b)
}

/// The mapping types are exactly the six that the add-mapping buttons offer
/// and the error message lists: line, scatter, bar, area, text and surface.
pub proof fn lemma_mapping_types_are_the_buttons(t: Seq<char>)
    ensures
        is_mapping_type(t) <==> (t == "line"@ || t == "scatter"@ || t == "bar"@ || t == "area"@
            || t == "text"@ || t == "surface"@),
{
}

/// The file of the icon of the mapping type `m_type`.
pub fn tab_image_path(m_type: &str) -> (p: String)
    ensures
        p@ == tab_image_file(m_type@),
        p@ == "assets/icons/"@ + m_type@ + ".svg"@,
{
    let mut p = String::from_str("assets/icons/");
    p.append(m_type);
    p.append(".svg");
    p
}

/// The name of a new mapping: the number of mappings already there.
pub fn new_mapping_name(count: usize) -> (s: String)
    ensures
        s@ == decimal_text(count as nat),
{
    usize_text(count)
}

/// The mapping types offered by the add-mapping buttons, in button order.
pub fn mapping_button_types() -> (v: Vec<&'static str>)
    ensures
        v@.len() == 6,
        v@[0]@ == "line"@,
        v@[1]@ == "scatter"@,
        v@[2]@ == "bar"@,
        v@[3]@ == "text"@,
        v@[4]@ == "area"@,
        v@[5]@ == "surface"@,
        forall|k: int| 0 <= k < 6 ==> is_mapping_type(#[trigger] v@[k]@),
{
    vec!["line", "scatter", "bar", "text", "area", "surface"]
}

/// The toolbar (of two) and the place in it of the button `i`: three buttons
/// to a toolbar.
pub fn toolbar_slot(i: usize) -> (r: (usize, usize))
    requires
        i < 6,
    ensures
        r.0 == i / 3,
        r.1 == i % 3,
        r.0 < 2,
{
    (i / 3, i % 3)
}

/// The first pages of the plot notebook hold the design and scale menus; the
/// mappings start after them.
pub open spec fn first_mapping_page() -> int {
    3
}

/// A mapping can be removed when its page, not a menu page, is selected.
pub fn remove_enabled(page: u32) -> (r: bool)
    ensures
        r == (page >= first_mapping_page()),
{
    page > 2
}

/// The mapping shown on notebook page `page`, and its name.
pub fn mapping_at_page(page: usize) -> (r: (usize, String))
    requires
        page >= first_mapping_page(),
    ensures
        r.0 == page - first_mapping_page(),
        r.1@ == decimal_text((page - first_mapping_page()) as nat),
{
    let ix = page - 3;
    (ix, usize_text(ix))
}

/// The notebook pages that clearing the layout removes: every mapping page.
pub fn pages_to_clear(n_pages: usize) -> (r: Vec<usize>)
    ensures
        n_pages <= 3 ==> r@.len() == 0,
        n_pages > 3 ==> r@.len() == n_pages - 3,
        forall|k: int| 0 <= k < r@.len() ==> r@[k] == k + 3,
{
    let mut r: Vec<usize> = Vec::new();
    let mut i: usize = 3;
    while i < n_pages
        invariant
            3 <= i,
            i <= n_pages || n_pages < 3,
            n_pages < 3 ==> i == 3,
            r@.len() == i - 3,
            forall|k: int| 0 <= k < r@.len() ==> r@[k] == k + 3,
        decreases n_pages - i,
    {
        r.push(i);
        i = i + 1;
    }
    r
}

} // verus!
