use vstd::prelude::*;
use crate::render::{spec_decimal, usize_to_string};

verus! {

/// One selectable document: a display label and the address it was scraped
/// from. The widget never mutates these; the address is kept as plain text
/// and parsed by the embedding application when it is actually fetched.
#[derive(Debug)]
pub struct Ranobe {
    pub title: String,
    pub url: String,
}

impl Clone for Ranobe {
    fn clone(&self) -> (r: Self)
        ensures
            r == *self,
    {
        Ranobe { title: self.title.clone(), url: self.url.clone() }
    }
}

impl Ranobe {
    /// Builds a record from its label and address.
    pub fn new(title: String, url: String) -> (r: Self)
        ensures
            r.title == title,
            r.url == url,
    {
        Ranobe { title, url }
    }
}

/// Cursor over the provider's paged "latest updates" listing: remembers which
/// page the next request should ask for.
#[derive(Debug)]
pub struct ReadLightNovel {
    pub page: u32,
}

impl ReadLightNovel {
    /// Starts at the first page of the listing.
    pub fn new() -> (r: Self)
        ensures
            r.page == 0,
    {
        ReadLightNovel { page: 0 }
    }

    /// The address of the listing page the cursor stands on.
    pub fn latest_url(&self) -> (r: String)
        ensures
            r@ == "https://readlightnovel.me/latest-update/"@ + spec_decimal(self.page as int),
    {
        let mut s = String::from_str("https://readlightnovel.me/latest-update/");
        let num = usize_to_string(self.page as usize);
        s.append(num.as_str());
        s
    }

    /// Moves the cursor to the following page; the counter saturates at its
    /// maximum rather than wrapping.
    pub fn advance_page(&mut self)
        ensures
            old(self).page < u32::MAX ==> final(self).page == old(self).page + 1,
            old(self).page == u32::MAX ==> final(self).page == u32::MAX,
    {
        if self.page < u32::MAX {
            self.page = self.page + 1;
        }
    }
}

} // verus!
