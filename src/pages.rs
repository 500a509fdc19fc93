use vstd::prelude::*;

use crate::auth::{form_value, param_view, single_value};
use crate::errors::{decode, LoginError};
use crate::i18n::{catalog, error_entries, I18n, Locale};
use crate::page_data::{form_view, pairs_view, PageData};

verus! {

/// The error kinds named by the `error` parameters of a request.
pub open spec fn requested_errors(param: Option<Seq<Seq<char>>>) -> Seq<LoginError> {
    match param {
        Some(ids) => decode(ids),
        None => Seq::empty(),
    }
}

/// The form values carried into the login page: the return address, if
/// one was given.
pub open spec fn login_form_values(return_to: Option<Seq<char>>) -> Seq<(Seq<char>, Seq<char>)> {
    match return_to {
        Some(u) => seq![("return"@, u)],
        None => Seq::empty(),
    }
}

/// The data of the login page, from the request's `error` and `return`
/// parameters: the English strings, a message for the errors they name, and
/// the return address to send along with the form.
pub fn login_page(errors: Option<&Vec<String>>, return_to: Option<&Vec<String>>) -> (r: PageData)
    ensures
        pairs_view(r.i18n@) == catalog(Locale::En),
        pairs_view(r.errors@) == error_entries(Locale::En, requested_errors(param_view(errors))),
        form_view(r.form_data@) == login_form_values(form_value(param_view(return_to))),
{
    let kinds = match errors {
        Some(ids) => LoginError::from_strings(ids),
        None => Vec::new(),
    };
    let mut form_values: Vec<(&'static str, String)> = Vec::new();
    match single_value(return_to) {
        Some(redirect) => form_values.push(("return", redirect)),
        None => {},
    }
    assert(form_view(form_values@) =~= login_form_values(form_value(param_view(return_to))));
    let i18n = I18n::new("en");
    i18n.get_catalog(kinds, form_values)
}

/// The data of the page shown after a login: the English strings alone.
pub fn success_page() -> (r: PageData)
    ensures
        pairs_view(r.i18n@) == catalog(Locale::En),
        r.errors@.len() == 0,
        r.form_data@.len() == 0,
{
    let i18n = I18n::new("en");
    let r = i18n.get_catalog(Vec::new(), Vec::new());
    assert(error_entries(Locale::En, Seq::<LoginError>::empty()) =~= Seq::empty());
    assert(form_view(r.form_data@).len() == r.form_data@.len());
    assert(form_view(Seq::<(&'static str, String)>::empty()).len() == 0);
    r
}

} // verus!
