//! Sprite source for Lucide icons, fetched by name from the icon
//! repository.  The function here computes the exact URL of an icon's SVG;
//! fetching it is the caller's job.

use vstd::prelude::*;

verus! {

/// Base URL of the Lucide icon repository.
pub const LUICIDE_URL: &'static str =
    "https://raw.githubusercontent.com/lucide-icons/lucide/refs/heads/master/icons";

#[derive(Debug, Clone, PartialEq, Eq)]
pub struct LuicideSource {
    pub icon: String,
}

/// The full URL of the icon's SVG in the Lucide repository.
pub open spec fn spec_luicide_url(s: LuicideSource) -> Seq<char> {
    LUICIDE_URL@ + "/"@ + s.icon@ + ".svg"@
}

impl LuicideSource {
    /// The full URL of this icon's SVG.
    pub fn url_string(&self) -> (r: String)
        ensures
            r@ == spec_luicide_url(*self),
    {
        let mut out = String::new();
        out.append(LUICIDE_URL);
        out.append("/");
        out.append(self.icon.as_str());
        out.append(".svg");
        out
    }
}

} // verus!
