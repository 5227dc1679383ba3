//! The file-hosting backends a relayed file can be handed to.

use vstd::prelude::*;
use crate::text::str_eq;

verus! {

/// The backend a request selects.
#[derive(Clone, Copy, Debug, PartialEq, Eq, Structural)]
pub enum Destination {
    Pomf,
    Catbox,
    Litterbox,
    /// A selector that names none of the three backends. Such a file goes to
    /// the litterbox endpoint in the form that catbox and litterbox share,
    /// without a retention window.
    Unrecognized,
}

/// The backend that a selector names.
pub open spec fn selected(selector: Seq<char>) -> Destination {
    if selector == "pomf"@ {
        Destination::Pomf
    } else if selector == "catbox"@ {
        Destination::Catbox
    } else if selector == "litterbox"@ {
        Destination::Litterbox
    } else {
        Destination::Unrecognized
    }
}

impl Destination {
    /// Reads the selector of a request.
    pub fn select(selector: &str) -> (d: Destination)
        ensures
            d == selected(selector@),
    {
        if str_eq(selector, "pomf") {
            Destination::Pomf
        } else if str_eq(selector, "catbox") {
            Destination::Catbox
        } else if str_eq(selector, "litterbox") {
            Destination::Litterbox
        } else {
            Destination::Unrecognized
        }
    }

    /// The address that uploads to this backend are posted to.
    pub open spec fn endpoint_text(self) -> Seq<char> {
        match self {
            Destination::Pomf => "https://pomf.lain.la/upload.php"@,
            Destination::Catbox => "https://catbox.moe/user/api.php"@,
            Destination::Litterbox | Destination::Unrecognized =>
                "https://litterbox.catbox.moe/resources/internals/api.php"@,
        }
    }

    /// The name of the form field that carries the file.
    pub open spec fn file_field_text(self) -> Seq<char> {
        match self {
            Destination::Pomf => "files[]"@,
            _ => "fileToUpload"@,
        }
    }

    /// Whether the backend answers with a JSON document; the others answer
    /// with the bare URL.
    pub open spec fn answers_json(self) -> bool {
        self == Destination::Pomf
    }

    /// The address that uploads to this backend are posted to.
    pub fn endpoint(self) -> (r: &'static str)
        ensures
            r@ == self.endpoint_text(),
    {
        match self {
            Destination::Pomf => "https://pomf.lain.la/upload.php",
            Destination::Catbox => "https://catbox.moe/user/api.php",
            Destination::Litterbox | Destination::Unrecognized =>
                "https://litterbox.catbox.moe/resources/internals/api.php",
        }
    }

    /// The name of the form field that carries the file.
    pub fn file_field(self) -> (r: &'static str)
        ensures
            r@ == self.file_field_text(),
    {
        match self {
            Destination::Pomf => "files[]",
            _ => "fileToUpload",
        }
    }
}

} // verus!
