use vstd::prelude::*;
use vstd::string::StrSliceExecFns;

verus! {

/// Whether `c` has Unicode's Alphabetic property.
pub uninterp spec fn alphabetic_char(c: char) -> bool;

/// Whether `c` has Unicode's Lowercase property.
pub uninterp spec fn lowercase_char(c: char) -> bool;

/// Relies on `char::is_alphabetic`, which depends on `c` alone.
#[verifier::external_body]
fn is_alphabetic(c: char) -> (r: bool)
    ensures
        r == alphabetic_char(c),
{
    c.is_alphabetic()
}

/// Relies on `char::is_lowercase`, which depends on `c` alone.
#[verifier::external_body]
fn is_lowercase(c: char) -> (r: bool)
    ensures
        r == lowercase_char(c),
{
    c.is_lowercase()
}

/// Relies on `String::push`: appends `c` at the end.
#[verifier::external_body]
fn push_char(s: &mut String, c: char)
    ensures
        final(s)@ == old(s)@.push(c),
{
    s.push(c)
}

/// ASCII capitals become small letters; every other character stays.
pub open spec fn lower_ascii(c: char) -> char {
    if 'A' <= c && c <= 'Z' {
        ((c as u32 + 32) as u8) as char
    } else {
        c
    }
}

fn to_lower_ascii(c: char) -> (r: char)
    ensures
        r == lower_ascii(c),
{
    if 'A' <= c && c <= 'Z' {
        ((c as u8) + 32) as char
    } else {
        c
    }
}

/// An underscore goes before position `i`: the character before it is
/// alphabetic and the one at it is not a lowercase letter.
pub open spec fn boundary_at(s: Seq<char>, i: int) -> bool {
    0 < i < s.len() && alphabetic_char(s[i - 1]) && !lowercase_char(s[i])
}

/// The snake-case form of `s`, one character at a time: each character is
/// lowered (ASCII only) and preceded by an underscore at a boundary.
pub open spec fn snake_of(s: Seq<char>) -> Seq<char>
    decreases s.len(),
{
    if s.len() == 0 {
        Seq::empty()
    } else {
        let n = s.len() - 1;
        let prev = snake_of(s.subrange(0, n));
        if boundary_at(s, n) {
            prev.push('_').push(lower_ascii(s[n]))
        } else {
            prev.push(lower_ascii(s[n]))
        }
    }
}

/// Turns a mixed-case identifier into snake case.
pub fn snake_case_name(ident: &String) -> (r: String)
    ensures
        r@ == snake_of(ident@),
{
    let s = ident.as_str();
    let n = s.unicode_len();
    let mut acc = String::new();
    let mut prev_alpha = false;
    let mut i: usize = 0;
    while i < n
        invariant
            n == ident@.len(),
            s@ == ident@,
            i <= n,
            acc@ == snake_of(ident@.subrange(0, i as int)),
            prev_alpha == (i > 0 && alphabetic_char(ident@[i - 1])),
        decreases n - i,
    {
        let c = s.get_char(i);
        let ghost t = ident@.subrange(0, i as int + 1);
        assert(t.subrange(0, i as int) =~= ident@.subrange(0, i as int));
        if prev_alpha && !is_lowercase(c) {
            push_char(&mut acc, '_');
        }
        let lc = to_lower_ascii(c);
        push_char(&mut acc, lc);
        prev_alpha = is_alphabetic(c);
        i += 1;
    }
    assert(ident@.subrange(0, n as int) =~= ident@);
    acc
}

/// The empty identifier stays empty.
pub proof fn lemma_snake_of_empty()
    ensures
        snake_of(Seq::empty()) == Seq::<char>::empty(),
{
}

/// An identifier with no boundary and no ASCII capital is its own snake
/// case.
pub proof fn lemma_snake_fixed_point(s: Seq<char>)
    requires
        forall|i: int| 0 <= i < s.len() ==> !boundary_at(s, i) && lower_ascii(s[i]) == s[i],
    ensures
        snake_of(s) == s,
    decreases s.len(),
{
    if s.len() > 0 {
        let n = s.len() - 1;
        let t = s.subrange(0, n);
        assert forall|i: int| 0 <= i < t.len() implies !boundary_at(t, i) && lower_ascii(t[i])
            == t[i] by {
            assert(!boundary_at(s, i));
        }
        lemma_snake_fixed_point(t);
        assert(!boundary_at(s, n));
        assert(s =~= t.push(s[n]));
    }
}

} // verus!
