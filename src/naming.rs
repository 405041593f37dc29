//! Naming conventions shared by every field-emitting step: lower camel case
//! and English pluralization of model names.
use vstd::prelude::*;

verus! {

/// ASCII lowercase of one character; other characters are kept.
pub open spec fn ascii_lower(c: char) -> char {
    if 'A' <= c && c <= 'Z' {
        ((c as u32) + 32) as char
    } else {
        c
    }
}

/// The name with its first character lowercased.
pub open spec fn lower_first(s: Seq<char>) -> Seq<char> {
    if s.len() == 0 {
        s
    } else {
        seq![ascii_lower(s[0])] + s.drop_first()
    }
}

pub open spec fn is_vowel(c: char) -> bool {
    c == 'a' || c == 'e' || c == 'i' || c == 'o' || c == 'u' || c == 'A' || c == 'E' || c == 'I'
        || c == 'O' || c == 'U'
}

/// True when the plural is formed with "es" (boxes, classes, matches, wishes).
pub open spec fn takes_es(s: Seq<char>) -> bool {
    let n = s.len();
    n >= 1 && (s[n - 1] == 's' || s[n - 1] == 'x' || s[n - 1] == 'z' || (n >= 2 && s[n - 1]
        == 'h' && (s[n - 2] == 'c' || s[n - 2] == 's')))
}

/// True when a final consonant + 'y' turns into "ies" (category, entry).
pub open spec fn takes_ies(s: Seq<char>) -> bool {
    let n = s.len();
    n >= 2 && s[n - 1] == 'y' && !is_vowel(s[n - 2])
}

/// English plural of a (singular) name.
pub open spec fn plural_of(s: Seq<char>) -> Seq<char> {
    if takes_ies(s) {
        s.take(s.len() - 1) + "ies"@
    } else if takes_es(s) {
        s + "es"@
    } else {
        s + "s"@
    }
}

/// Lower camel case of the plural: the name of a collection field.
pub open spec fn plural_field_name(s: Seq<char>) -> Seq<char> {
    lower_first(plural_of(s))
}

fn lower_char(c: char) -> (r: char)
    ensures
        r == ascii_lower(c),
{
    if 'A' <= c && c <= 'Z' {
        ((c as u8) + 32) as char
    } else {
        c
    }
}

/// Relies on `String::from(char)`: a string of that one character.
#[verifier::external_body]
fn char_to_string(c: char) -> (r: String)
    ensures
        r@ == seq![c],
{
    String::from(c)
}

/// Lower camel case of an upper camel case name: the first character lowercased.
pub fn camel_case(s: &str) -> (r: String)
    ensures
        r@ == lower_first(s@),
{
    let n = s.unicode_len();
    if n == 0 {
        return String::new();
    }
    let head = char_to_string(lower_char(s.get_char(0)));
    let r = head.concat(s.substring_char(1, n));
    assert(r@ =~= lower_first(s@));
    r
}

/// English plural of a name.
pub fn pluralize(s: &str) -> (r: String)
    ensures
        r@ == plural_of(s@),
{
    let n = s.unicode_len();
    let last = if n >= 1 { s.get_char(n - 1) } else { ' ' };
    let prev = if n >= 2 { s.get_char(n - 2) } else { ' ' };
    let vowel = prev == 'a' || prev == 'e' || prev == 'i' || prev == 'o' || prev == 'u' || prev
        == 'A' || prev == 'E' || prev == 'I' || prev == 'O' || prev == 'U';
    if n >= 2 && last == 'y' && !vowel {
        String::from_str(s.substring_char(0, n - 1)).concat("ies")
    } else if n >= 1 && (last == 's' || last == 'x' || last == 'z' || (n >= 2 && last == 'h' && (
    prev == 'c' || prev == 's'))) {
        String::from_str(s).concat("es")
    } else {
        String::from_str(s).concat("s")
    }
}

} // verus!
