//! The proxies that the environment names.

use crate::text::opt_view;
use vstd::prelude::*;

verus! {

/// The proxies for plain and for secured requests.
#[derive(Debug, Default)]
pub struct Proxies {
    pub http: Option<String>,
    pub https: Option<String>,
}

/// The value of a variable that is looked up under its lowercase name
/// first and under its uppercase name next: the first of the two values
/// that is there and not empty.
pub open spec fn variable_value(lower: Option<Seq<char>>, upper: Option<Seq<char>>) -> Option<
    Seq<char>,
> {
    if lower is Some && lower->0.len() > 0 {
        lower
    } else if upper is Some && upper->0.len() > 0 {
        upper
    } else {
        None
    }
}

impl Proxies {
    /// The value of a variable, from what the environment holds under its
    /// lowercase name and under its uppercase name.
    pub fn get_variable_value(lower: Option<String>, upper: Option<String>) -> (r: Option<String>)
        ensures
            opt_view(r) == variable_value(opt_view(lower), opt_view(upper)),
    {
        match lower {
            Some(value) => {
                if value.as_str().unicode_len() > 0 {
                    return Some(value);
                }
            },
            None => {},
        }
        match upper {
            Some(value) => {
                if value.as_str().unicode_len() > 0 {
                    return Some(value);
                }
            },
            None => {},
        }
        None
    }

    /// The proxies that the environment names: `http_proxy` and
    /// `https_proxy`, each looked up in lowercase first and in uppercase
    /// next. The arguments are the values of the four variables, `None` for
    /// one that is not set.
    pub fn new(
        http_lower: Option<String>,
        http_upper: Option<String>,
        https_lower: Option<String>,
        https_upper: Option<String>,
    ) -> (r: Self)
        ensures
            opt_view(r.http) == variable_value(opt_view(http_lower), opt_view(http_upper)),
            opt_view(r.https) == variable_value(opt_view(https_lower), opt_view(https_upper)),
    {
        Proxies {
            http: Proxies::get_variable_value(http_lower, http_upper),
            https: Proxies::get_variable_value(https_lower, https_upper),
        }
    }
}

} // verus!
