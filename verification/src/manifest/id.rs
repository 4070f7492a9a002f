//! Application identifiers.
use vstd::prelude::*;
use crate::manifest::error::{ManifestError, ManifestFault};
use crate::ordered::TextKey;
use crate::text::{byte_len, is_digit, is_lower};
use crate::text::{byte_count, char_is_digit, char_is_lower, chars_of, text_eq};

verus! {

/// The identifier of an application.
#[derive(Debug, Eq, PartialOrd, Ord)]
pub struct AppId(String);

/// A character that an application id may hold.
pub open spec fn id_char(c: char) -> bool {
    is_lower(c) || is_digit(c) || c == '-'
}

/// The text of an application id.
pub open spec fn valid_id(s: Seq<char>) -> bool {
    &&& 0 < s.len()
    &&& byte_len(s) <= 64
    &&& forall|i: int| 0 <= i < s.len() ==> id_char(#[trigger] s[i])
    &&& s[0] != '-'
    &&& s.last() != '-'
}

impl View for AppId {
    type V = Seq<char>;

    closed spec fn view(&self) -> Seq<char> {
        self.0@
    }
}

/// Whether a string is the text of an application id.
fn is_valid_id(value: &str) -> (valid: bool)
    ensures
        valid == valid_id(value@),
{
    let chars = chars_of(value);
    if chars.len() == 0 || byte_count(value) > 64 || chars[0] == '-' || chars[chars.len() - 1] == '-' {
        return false;
    }
    let mut i: usize = 0;
    while i < chars.len()
        invariant
            i <= chars.len(),
            chars@ == value@,
            forall|j: int| 0 <= j < i ==> id_char(#[trigger] value@[j]),
        decreases chars.len() - i,
    {
        let c = chars[i];
        if !(char_is_lower(c) || char_is_digit(c) || c == '-') {
            assert(!id_char(value@[i as int]));
            return false;
        }
        i = i + 1;
    }
    true
}

impl AppId {
    #[verifier::type_invariant]
    spec fn wf(self) -> bool {
        valid_id(self.0@)
    }

    /// The id with the given text.
    pub fn new(value: &str) -> (r: Result<AppId, ManifestError>)
        ensures
            match r {
                Ok(id) => valid_id(value@) && id@ == value@,
                Err(e) => !valid_id(value@) && e@ == ManifestFault::InvalidId(value@),
            },
    {
        if is_valid_id(value) {
            Ok(AppId(value.to_owned()))
        } else {
            Err(ManifestError::InvalidId(value.to_owned()))
        }
    }

    /// The text of the id.
    pub fn as_str(&self) -> (r: &str)
        ensures
            r@ == self@,
            valid_id(r@),
    {
        proof {
            use_type_invariant(self);
        }
        self.0.as_str()
    }

    /// The text of the id, as an owned string.
    pub fn to_text(&self) -> (r: String)
        ensures
            r@ == self@,
    {
        self.0.clone()
    }
}

impl Clone for AppId {
    fn clone(&self) -> (r: AppId)
        ensures
            r == *self,
    {
        proof {
            use_type_invariant(self);
        }
        AppId(self.0.clone())
    }
}

impl PartialEq for AppId {
    fn eq(&self, other: &AppId) -> (r: bool) {
        text_eq(self.0.as_str(), other.0.as_str())
    }
}

impl vstd::std_specs::cmp::PartialEqSpecImpl for AppId {
    open spec fn obeys_eq_spec() -> bool {
        true
    }

    open spec fn eq_spec(&self, other: &AppId) -> bool {
        self@ == other@
    }
}

impl TextKey for AppId {
    open spec fn text(&self) -> Seq<char> {
        self@
    }

    fn as_text(&self) -> (r: &str) {
        self.as_str()
    }

    fn duplicate(&self) -> (r: Self) {
        self.clone()
    }
}

/// An application's id is made of small letters, digits and hyphens, without a hyphen at either
/// end: it can stand in a file name, in a unit's name and in a line of a protocol.
pub proof fn ids_are_plain_names(s: Seq<char>)
    ensures
        valid_id(s) ==> s.len() > 0 && !s.contains('/') && !s.contains('.') && !s.contains(':')
            && !s.contains(' ') && !s.contains('\n') && !s.contains('=') && !s.contains('@')
            && !s.contains('\0'),
        valid_id(s) <==> {
            &&& s.len() > 0
            &&& byte_len(s) <= 64
            &&& s[0] != '-' && s.last() != '-'
            &&& forall|i: int|
                0 <= i < s.len() ==> 'a' <= #[trigger] s[i] <= 'z' || '0' <= s[i] <= '9' || s[i]
                    == '-'
        },
{
    if valid_id(s) {
        assert forall|i: int| 0 <= i < s.len() implies 'a' <= #[trigger] s[i] <= 'z' || '0' <= s[i]
            <= '9' || s[i] == '-' by {
            assert(id_char(s[i]));
        }
    }
}

} // verus!
