//! The form that asks for a new bucket, and what it requires before the
//! bucket is asked of the service.

use vstd::prelude::*;
use crate::text::chars_of;

verus! {

/// Whether the character is white space: one of the characters that Unicode
/// gives the property of that name.
pub open spec fn is_white_space(c: char) -> bool {
    ||| '\u{9}' <= c <= '\u{d}'
    ||| c == ' '
    ||| c == '\u{85}'
    ||| c == '\u{a0}'
    ||| c == '\u{1680}'
    ||| '\u{2000}' <= c <= '\u{200a}'
    ||| c == '\u{2028}'
    ||| c == '\u{2029}'
    ||| c == '\u{202f}'
    ||| c == '\u{205f}'
    ||| c == '\u{3000}'
}

/// Whether the character is white space, as [`is_white_space`] states it.
pub fn white_space(c: char) -> (yes: bool)
    ensures
        yes == is_white_space(c),
{
    ('\u{9}' <= c && c <= '\u{d}') || c == ' ' || c == '\u{85}' || c == '\u{a0}' || c == '\u{1680}'
        || ('\u{2000}' <= c && c <= '\u{200a}') || c == '\u{2028}' || c == '\u{2029}' || c
        == '\u{202f}' || c == '\u{205f}' || c == '\u{3000}'
}

/// Whether nothing is left of `text` once the white space around it is
/// taken away: every character of it is white space.
pub open spec fn is_blank(text: Seq<char>) -> bool {
    forall|i: int| 0 <= i < text.len() ==> is_white_space(#[trigger] text[i])
}

/// What the form lacks.
#[derive(Debug, PartialEq, Eq)]
pub enum BucketFormError {
    NameRequired,
    RegionRequired,
}

/// What the form returns for a name and a region of which it is known
/// whether they are blank: the name is asked for first, then the region.
pub open spec fn form_outcome(name_blank: bool, region_blank: bool) -> Result<(), BucketFormError> {
    if name_blank {
        Err(BucketFormError::NameRequired)
    } else if region_blank {
        Err(BucketFormError::RegionRequired)
    } else {
        Ok(())
    }
}

impl BucketFormError {
    /// The text that the form shows.
    pub fn message(&self) -> (text: String)
        ensures
            text@ == match self {
                BucketFormError::NameRequired => "Bucket name is required"@,
                BucketFormError::RegionRequired => "Region is required"@,
            },
    {
        match self {
            BucketFormError::NameRequired => "Bucket name is required".to_owned(),
            BucketFormError::RegionRequired => "Region is required".to_owned(),
        }
    }
}

/// Whether `text` is blank, as [`is_blank`] states it.
pub fn blank(text: &str) -> (yes: bool)
    ensures
        yes == is_blank(text@),
{
    let chars = chars_of(text);
    let mut index: usize = 0;
    while index < chars.len()
        invariant
            index <= chars.len(),
            chars@ == text@,
            forall|i: int| 0 <= i < index ==> is_white_space(#[trigger] text@[i]),
        decreases chars.len() - index,
    {
        if !white_space(chars[index]) {
            return false;
        }
        index = index + 1;
    }
    true
}

/// What the form returns, as [`form_outcome`] states it.
pub fn bucket_form_result(name_blank: bool, region_blank: bool) -> (checked: Result<
    (),
    BucketFormError,
>)
    ensures
        checked == form_outcome(name_blank, region_blank),
{
    if name_blank {
        Err(BucketFormError::NameRequired)
    } else if region_blank {
        Err(BucketFormError::RegionRequired)
    } else {
        Ok(())
    }
}

/// Checks what was typed into the form: a bucket needs a name and a region
/// that are not blank.
pub fn check_bucket_form(name: &str, region: &str) -> (checked: Result<(), BucketFormError>)
    ensures
        checked == form_outcome(is_blank(name@), is_blank(region@)),
{
    bucket_form_result(blank(name), blank(region))
}

} // verus!
