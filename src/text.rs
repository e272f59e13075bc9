use vstd::prelude::*;

verus! {

/// A principal address is well formed when it is non-empty and made of
/// printable ASCII characters other than the space.
pub open spec fn is_principal_char(c: char) -> bool {
    '!' <= c && c <= '~'
}

pub open spec fn valid_principal(s: Seq<char>) -> bool {
    &&& s.len() > 0
    &&& forall|i: int| 0 <= i < s.len() ==> is_principal_char(#[trigger] s[i])
}

pub open spec fn is_lower_hex(c: char) -> bool {
    ('0' <= c && c <= '9') || ('a' <= c && c <= 'f')
}

pub open spec fn is_dash_position(i: int) -> bool {
    i == 8 || i == 13 || i == 18 || i == 23
}

/// An asset identifier is the hyphenated lower-case form of a UUID:
/// 36 characters, dashes at positions 8, 13, 18 and 23, hex digits elsewhere.
pub open spec fn valid_identifier(s: Seq<char>) -> bool {
    &&& s.len() == 36
    &&& forall|i: int|
        0 <= i < 36 ==> if is_dash_position(i) {
            #[trigger] s[i] == '-'
        } else {
            is_lower_hex(s[i])
        }
}

/// Relies on `String::push`: appends one character.
#[verifier::external_body]
pub(crate) fn push_char(s: &mut String, c: char)
    ensures
        final(s)@ == old(s)@.push(c),
{
    s.push(c)
}

/// The characters of a string, in order.
pub fn chars_of(s: &String) -> (r: Vec<char>)
    ensures
        r@ == s@,
{
    let t: &str = s.as_str();
    let n: usize = t.unicode_len();
    let mut r: Vec<char> = Vec::new();
    let mut i: usize = 0;
    while i < n
        invariant
            n == s@.len(),
            t@ == s@,
            i <= n,
            r@ == s@.subrange(0, i as int),
        decreases n - i,
    {
        let c = t.get_char(i);
        r.push(c);
        i = i + 1;
        assert(r@ =~= s@.subrange(0, i as int));
    }
    assert(r@ =~= s@);
    r
}

/// The string made of the given characters, in order.
pub fn string_of(v: &Vec<char>) -> (r: String)
    ensures
        r@ == v@,
{
    let mut r = String::new();
    let mut i: usize = 0;
    while i < v.len()
        invariant
            i <= v.len(),
            r@ == v@.subrange(0, i as int),
        decreases v.len() - i,
    {
        push_char(&mut r, v[i]);
        i = i + 1;
        assert(r@ =~= v@.subrange(0, i as int));
    }
    assert(r@ =~= v@);
    r
}

/// Whether `s` is a well-formed principal address.
pub fn is_valid_principal(s: &String) -> (r: bool)
    ensures
        r == valid_principal(s@),
{
    let v = chars_of(s);
    if v.len() == 0 {
        return false;
    }
    let mut i: usize = 0;
    while i < v.len()
        invariant
            i <= v.len(),
            v@ == s@,
            forall|j: int| 0 <= j < i ==> is_principal_char(#[trigger] v@[j]),
        decreases v.len() - i,
    {
        let c = v[i];
        if !('!' <= c && c <= '~') {
            return false;
        }
        i = i + 1;
    }
    true
}

/// Whether `s` is a well-formed asset identifier.
pub fn is_valid_identifier(s: &String) -> (r: bool)
    ensures
        r == valid_identifier(s@),
{
    let v = chars_of(s);
    if v.len() != 36 {
        return false;
    }
    let mut i: usize = 0;
    while i < 36
        invariant
            i <= 36,
            v@ == s@,
            v@.len() == 36,
            forall|j: int|
                0 <= j < i ==> if is_dash_position(j) {
                    #[trigger] v@[j] == '-'
                } else {
                    is_lower_hex(v@[j])
                },
        decreases 36 - i,
    {
        let c = v[i];
        let ok = if i == 8 || i == 13 || i == 18 || i == 23 {
            c == '-'
        } else {
            ('0' <= c && c <= '9') || ('a' <= c && c <= 'f')
        };
        if !ok {
            return false;
        }
        i = i + 1;
    }
    true
}

} // verus!
