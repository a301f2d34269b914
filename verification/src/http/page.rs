//! The pages the server knows, and where their files are.

use vstd::prelude::*;
use vstd::string::StringExecFns;

verus! {

/// A page of the site.
#[derive(Debug, Clone, Copy, PartialEq, Eq, Structural)]
pub enum PageContent {
    Home,
    About,
    Contact,
}

impl PageContent {
    /// The path of the file that holds the page, relative to the directory
    /// the server runs in.
    pub open spec fn file_path(self) -> Seq<char> {
        match self {
            PageContent::Home => "src/static/index.html"@,
            PageContent::About => "src/static/about.html"@,
            PageContent::Contact => "src/static/contact.html"@,
        }
    }

    /// The path of the file that holds the page.
    pub fn get_file_path(&self) -> (path: String)
        ensures
            path@ == self.file_path(),
    {
        match self {
            PageContent::Home => String::from_str("src/static/index.html"),
            PageContent::About => String::from_str("src/static/about.html"),
            PageContent::Contact => String::from_str("src/static/contact.html"),
        }
    }
}

} // verus!
