//! Paths that lead elsewhere: links and other redirecting objects.

use vstd::prelude::*;

use crate::text::concat::cat2;

verus! {

/// What decides whether a path redirects.
#[derive(Clone, Debug)]
pub struct RedirectLook {
    pub is_symlink: bool,
    /// The object carries a reparse tag; only known on some platforms.
    pub reparse: Option<ReparseTag>,
}

/// The reparse tag of an object, or why it could not be read.
#[derive(Clone, Debug)]
pub enum ReparseTag {
    Tag(u32),
    Failed(String),
}

/// The bit of a reparse tag that marks objects standing for another name.
pub const NAME_SURROGATE_BIT: u32 = 0x2000_0000;

/// The tag has the bit that marks an object standing for another name.
pub open spec fn surrogate(tag: u32) -> bool {
    tag & NAME_SURROGATE_BIT != 0
}

/// Whether a reparse tag redirects the path to another place. Cloud
/// placeholders and compressed files have tags too, but stay in place.
pub fn is_name_surrogate_reparse_tag(tag: u32) -> (redirects: bool)
    ensures
        redirects == surrogate(tag),
{
    tag & NAME_SURROGATE_BIT != 0
}

/// Why a path is refused.
pub open spec fn redirect_fault(look: RedirectLook, path: Seq<char>) -> Option<Seq<char>> {
    if look.is_symlink {
        Some("路径不能是符号链接: "@ + path)
    } else {
        match look.reparse {
            None => None,
            Some(ReparseTag::Failed(text)) => Some(text@),
            Some(ReparseTag::Tag(tag)) => if surrogate(tag) {
                Some("路径不能是 junction 或其他重定向型 reparse 对象: "@ + path)
            } else {
                None
            },
        }
    }
}

/// Refuses links and other redirecting objects.
pub fn reject_path_redirector(look: &RedirectLook, path: &str) -> (result: Result<(), String>)
    ensures
        match redirect_fault(*look, path@) {
            None => result is Ok,
            Some(text) => result matches Err(found) && found@ == text,
        },
{
    if look.is_symlink {
        return Err(cat2("路径不能是符号链接: ", path));
    }
    match &look.reparse {
        None => Ok(()),
        Some(ReparseTag::Failed(text)) => Err(text.clone()),
        Some(ReparseTag::Tag(tag)) => {
            if is_name_surrogate_reparse_tag(*tag) {
                Err(cat2("路径不能是 junction 或其他重定向型 reparse 对象: ", path))
            } else {
                Ok(())
            }
        },
    }
}

/// A path is refused exactly if it is a link, if its tag cannot be read, or
/// if the tag has the bit that stands for another name.
pub proof fn redirects_are_refused(look: RedirectLook, path: Seq<char>)
    ensures
        redirect_fault(look, path) is None <==> !look.is_symlink && match look.reparse {
            None => true,
            Some(ReparseTag::Tag(tag)) => tag & 0x2000_0000u32 == 0,
            Some(ReparseTag::Failed(_)) => false,
        },
{
}

/// Of a tag only the one bit counts.
pub proof fn surrogates_have_one_bit(tag: u32)
    ensures
        surrogate(tag) <==> (tag / 0x2000_0000) % 2 == 1,
{
    assert((tag & 0x2000_0000u32 != 0) <==> (tag / 0x2000_0000u32) % 2 == 1) by (bit_vector);
}

} // verus!
