//! Unicode normalization of passwords.
//!
//! The four normalization forms are computed by the `unicode-normalization`
//! crate. Each is a function of the text alone and has a name here, so that
//! contracts can say which form a password was hashed in.

use crate::pass::params::Text;
use crate::pass::Normalization;
use vstd::prelude::*;
use vstd::string::*;

verus! {

/// The canonical decomposition (form D) of a text.
pub uninterp spec fn nfd_form(text: Seq<char>) -> Seq<char>;

/// The compatibility decomposition (form KD) of a text.
pub uninterp spec fn nfkd_form(text: Seq<char>) -> Seq<char>;

/// The canonical composition (form C) of a text.
pub uninterp spec fn nfc_form(text: Seq<char>) -> Seq<char>;

/// The compatibility composition (form KC) of a text.
pub uninterp spec fn nfkc_form(text: Seq<char>) -> Seq<char>;

/// A text in the form that `norm` asks for.
pub open spec fn normalized(norm: Normalization, text: Text) -> Text {
    match norm {
        Normalization::Nfd => nfd_form(text),
        Normalization::Nfkd => nfkd_form(text),
        Normalization::Nfc => nfc_form(text),
        Normalization::Nfkc => nfkc_form(text),
        Normalization::NoNormalization => text,
    }
}

/// `UnicodeNormalization::nfd` on a string, collected: its form D.
#[verifier::external_body]
fn nfd(text: &str) -> (r: String)
    ensures
        r@ == nfd_form(text@),
{
    unicode_normalization::UnicodeNormalization::nfd(text).collect::<String>()
}

/// `UnicodeNormalization::nfkd` on a string, collected: its form KD.
#[verifier::external_body]
fn nfkd(text: &str) -> (r: String)
    ensures
        r@ == nfkd_form(text@),
{
    unicode_normalization::UnicodeNormalization::nfkd(text).collect::<String>()
}

/// `UnicodeNormalization::nfc` on a string, collected: its form C.
#[verifier::external_body]
fn nfc(text: &str) -> (r: String)
    ensures
        r@ == nfc_form(text@),
{
    unicode_normalization::UnicodeNormalization::nfc(text).collect::<String>()
}

/// `UnicodeNormalization::nfkc` on a string, collected: its form KC.
#[verifier::external_body]
fn nfkc(text: &str) -> (r: String)
    ensures
        r@ == nfkc_form(text@),
{
    unicode_normalization::UnicodeNormalization::nfkc(text).collect::<String>()
}

/// Brings a text into the form that `norm` asks for.
pub fn normalize(norm: Normalization, text: &str) -> (r: String)
    ensures
        r@ == normalized(norm, text@),
{
    match norm {
        Normalization::Nfd => nfd(text),
        Normalization::Nfkd => nfkd(text),
        Normalization::Nfc => nfc(text),
        Normalization::Nfkc => nfkc(text),
        Normalization::NoNormalization => String::from_str(text),
    }
}

} // verus!
