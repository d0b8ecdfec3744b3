//! The settings of a run: where the history is kept and which sites are
//! searched.

use crate::download::{parse_url, url_normal_form};
use crate::pattern::{compiles, regex_compiles};
use crate::text::opt_view;
use crate::website::{WebSite, WebSiteView};
use vstd::prelude::*;

verus! {

/// The settings read from the configuration.
#[derive(Debug)]
pub struct Settings {
    /// Directory of the history, where the configuration or the command
    /// line names one.
    pub db_path: Option<String>,
    pub sites: Vec<WebSite>,
}

/// What is wrong with the description of a site.
#[derive(Clone, Copy, Debug, PartialEq, Eq, Structural)]
pub enum SiteFault {
    /// The site has no name.
    EmptyName,
    /// The base address is no absolute address.
    BadBaseUrl,
    /// No version is listed.
    NoVersion,
    /// The expression for image names does not compile.
    BadFilter,
}

/// The first site of the settings that is described wrongly, and how.
#[derive(Clone, Copy, Debug, PartialEq, Eq, Structural)]
pub struct ConfigError {
    /// Index of the site among the sites.
    pub site: usize,
    pub fault: SiteFault,
}

/// What is wrong with `site`, if anything: the first of the faults, in the
/// order of [`SiteFault`].
pub open spec fn site_fault(site: WebSiteView) -> Option<SiteFault> {
    if site.name.len() == 0 {
        Some(SiteFault::EmptyName)
    } else if url_normal_form(site.base_url) is None {
        Some(SiteFault::BadBaseUrl)
    } else if site.version_list.len() == 0 {
        Some(SiteFault::NoVersion)
    } else if !regex_compiles(site.image_name_filter) {
        Some(SiteFault::BadFilter)
    } else {
        None
    }
}

/// The views of the sites.
pub open spec fn sites_view(v: Seq<WebSite>) -> Seq<WebSiteView> {
    Seq::new(v.len(), |i: int| v[i]@)
}

/// Every site before index `n` is described rightly.
pub open spec fn sites_sound_upto(sites: Seq<WebSiteView>, n: int) -> bool {
    forall|i: int| 0 <= i < n ==> site_fault(#[trigger] sites[i]) is None
}

impl WebSite {
    /// Checks the description of the site: it has a name, an absolute base
    /// address, a version at least, and an expression for image names that
    /// compiles.
    pub fn check(&self) -> (r: Result<(), SiteFault>)
        ensures
            r is Ok <==> site_fault(self@) is None,
            r matches Err(fault) ==> site_fault(self@) == Some(fault),
    {
        if self.name.as_str().unicode_len() == 0 {
            Err(SiteFault::EmptyName)
        } else if parse_url(self.base_url.as_str()).is_none() {
            Err(SiteFault::BadBaseUrl)
        } else if self.version_list.len() == 0 {
            Err(SiteFault::NoVersion)
        } else if !compiles(self.image_name_filter.as_str()) {
            Err(SiteFault::BadFilter)
        } else {
            Ok(())
        }
    }
}

impl Settings {
    /// The settings of a run, from what the configuration holds and what
    /// the command line says: a directory of the history named on the
    /// command line replaces that of the configuration.
    pub fn from_config(
        db_path: Option<String>,
        sites: Vec<WebSite>,
        cli_db_path: &Option<String>,
    ) -> (r: Self)
        ensures
            r.sites == sites,
            opt_view(r.db_path) == match *cli_db_path {
                Some(path) => Some(path@),
                None => opt_view(db_path),
            },
    {
        let db_path = match cli_db_path {
            Some(path) => Some(path.clone()),
            None => db_path,
        };
        Settings { db_path, sites }
    }

    /// Checks the description of every site, and names the first that is
    /// wrong.
    pub fn check(&self) -> (r: Result<(), ConfigError>)
        ensures
            r is Ok <==> sites_sound_upto(sites_view(self.sites@), self.sites@.len() as int),
            r matches Err(e) ==> {
                &&& e.site < self.sites@.len()
                &&& sites_sound_upto(sites_view(self.sites@), e.site as int)
                &&& site_fault(self.sites@[e.site as int]@) == Some(e.fault)
            },
    {
        let ghost sites = sites_view(self.sites@);
        let mut i: usize = 0;
        while i < self.sites.len()
            invariant
                i <= self.sites.len(),
                sites == sites_view(self.sites@),
                sites_sound_upto(sites, i as int),
            decreases self.sites.len() - i,
        {
            match self.sites[i].check() {
                Ok(()) => {},
                Err(fault) => {
                    assert(site_fault(sites[i as int]) is Some);
                    return Err(ConfigError { site: i, fault });
                },
            }
            assert(site_fault(sites[i as int]) is None);
            i += 1;
        }
        Ok(())
    }
}

} // verus!
