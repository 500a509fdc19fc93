use vstd::prelude::*;

verus! {

/// What a page template is filled with: the interface strings, one error
/// message per form field, and values to put back into the form. Each is a
/// list of (key, value) pairs.
pub struct PageData {
    pub i18n: Vec<(&'static str, &'static str)>,
    pub errors: Vec<(&'static str, &'static str)>,
    pub form_data: Vec<(&'static str, String)>,
}

/// The views of (key, text) pairs.
pub open spec fn pairs_view(v: Seq<(&'static str, &'static str)>) -> Seq<(Seq<char>, Seq<char>)> {
    v.map_values(|p: (&'static str, &'static str)| (p.0@, p.1@))
}

/// The views of (key, value) pairs whose values are owned strings.
pub open spec fn form_view(v: Seq<(&'static str, String)>) -> Seq<(Seq<char>, Seq<char>)> {
    v.map_values(|p: (&'static str, String)| (p.0@, p.1@))
}

} // verus!
