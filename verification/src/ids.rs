//! Identifiers of jobs and of points in the vector store.
use vstd::prelude::*;
use vstd::string::*;

verus! {

pub open spec fn is_lower_hex(c: char) -> bool {
    '0' <= c <= '9' || 'a' <= c <= 'f'
}

pub open spec fn is_hex(c: char) -> bool {
    is_lower_hex(c) || 'A' <= c <= 'F'
}

/// A position of the hyphenated form that holds a hyphen.
pub open spec fn hyphen_at(i: int) -> bool {
    i == 8 || i == 13 || i == 18 || i == 23
}

/// Groups of 8, 4, 4, 4 and 12 hexadecimal digits with hyphens between them.
pub open spec fn is_hyphenated(s: Seq<char>) -> bool {
    &&& s.len() == 36
    &&& forall|i: int|
        0 <= i < 36 ==> if hyphen_at(i) {
            #[trigger] s[i] == '-'
        } else {
            is_hex(s[i])
        }
}

/// The hyphenated form, in lower case.
pub open spec fn is_canonical(s: Seq<char>) -> bool {
    &&& is_hyphenated(s)
    &&& forall|i: int| 0 <= i < 36 && !hyphen_at(i) ==> is_lower_hex(#[trigger] s[i])
}

/// `c` is the lower case letter or the sign `l`, in either case.
pub open spec fn same_letter(c: char, l: char) -> bool {
    c == l || ('a' <= l <= 'z' && c as u32 + 32 == l as u32)
}

/// The prefix of the URN form.
pub open spec fn urn_prefix() -> Seq<char> {
    seq!['u', 'r', 'n', ':', 'u', 'u', 'i', 'd', ':']
}

/// A text that denotes a UUID: 32 hexadecimal digits, or the hyphenated form, bare, in braces or
/// behind `urn:uuid:`.
pub open spec fn is_uuid(s: Seq<char>) -> bool {
    ||| s.len() == 32 && forall|i: int| 0 <= i < 32 ==> is_hex(#[trigger] s[i])
    ||| is_hyphenated(s)
    ||| s.len() == 38 && s[0] == '{' && s[37] == '}' && is_hyphenated(s.subrange(1, 37))
    ||| s.len() == 45 && is_hyphenated(s.skip(9)) && forall|i: int|
        0 <= i < 9 ==> same_letter(#[trigger] s[i], urn_prefix()[i])
}

/// `uuid::Uuid::parse_str`, kept to whether it succeeds: it does on the four written forms of a
/// UUID, with digits and the URN prefix in either case, and on nothing else.
#[verifier::external_body]
pub(crate) fn parses_as_uuid(s: &str) -> (r: bool)
    ensures
        r == is_uuid(s@),
{
    uuid::Uuid::parse_str(s).is_ok()
}

/// `uuid::Uuid::new_v4`, printed: a random identifier in canonical form, with the digit 4 that
/// marks a random UUID. Nothing is said of the other digits, which chance decides.
#[verifier::external_body]
pub(crate) fn random_uuid() -> (r: String)
    ensures
        is_canonical(r@),
        r@[14] == '4',
{
    uuid::Uuid::new_v4().to_string()
}

/// What `uuid::Uuid::new_v5` prints for this name in the OID namespace.
pub uninterp spec fn name_uuid(name: Seq<char>) -> Seq<char>;

/// `uuid::Uuid::new_v5` in the namespace `NAMESPACE_OID`, printed: the same name gives the same
/// identifier, in canonical form, with the digit 5 that marks a name-based UUID. How the digits
/// come from the name (by SHA-1) is left to the name.
#[verifier::external_body]
pub(crate) fn uuid_of_name(name: &str) -> (r: String)
    ensures
        r@ == name_uuid(name@),
        is_canonical(r@),
        r@[14] == '5',
{
    uuid::Uuid::new_v5(&uuid::Uuid::NAMESPACE_OID, name.as_bytes()).to_string()
}

/// A text that denotes a UUID is one component of a path, whatever the system: it is not empty,
/// is no `.` or `..`, and holds no separator.
pub proof fn uuid_is_a_plain_component(s: Seq<char>)
    requires
        is_uuid(s),
    ensures
        s.len() >= 32,
        !s.contains('/'),
        !s.contains('\\'),
        !s.contains('.'),
        !s.contains('\0'),
{
    assert forall|i: int| 0 <= i < s.len() implies #[trigger] s[i] != '/' && s[i] != '\\' && s[i]
        != '.' && s[i] != '\0' by {
        if s.len() == 38 && s[0] == '{' && s[37] == '}' && is_hyphenated(s.subrange(1, 37)) {
            if 1 <= i < 37 {
                assert(s[i] == s.subrange(1, 37)[i - 1]);
            }
        } else if s.len() == 45 && is_hyphenated(s.skip(9)) {
            if i >= 9 {
                assert(s[i] == s.skip(9)[i - 9]);
            } else {
                assert(same_letter(s[i], urn_prefix()[i]));
                let l = urn_prefix()[i];
                assert(l == 'u' || l == 'r' || l == 'n' || l == ':' || l == 'i' || l == 'd');
            }
        }
    }
}

} // verus!
