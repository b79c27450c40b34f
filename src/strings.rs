//! String utilities.
use vstd::prelude::*;
use vstd::string::StringSliceAdditionalSpecFns;
use vstd::utf8::{encode_utf8, is_char_boundary};
use crate::text::{
    alphabetic, alphanumeric, begins_with, char_is_alphabetic, char_is_alphanumeric, char_is_uppercase,
    char_is_whitespace, char_lower_first, char_upper_first, chars_of, lower_first, parses_as_i64, starts_with,
    string_of, text_parses_as_i64, upper_first, uppercase, whitespace,
};

verus! {

/// `value` held within `min..=max`.
pub fn clamp(value: i64, min: i64, max: i64) -> (r: i64)
    ensures
        r == if value < min { min } else if value > max { max } else { value },
{
    if value < min {
        min
    } else if value > max {
        max
    } else {
        value
    }
}

/// The first `max_length` bytes of `s`; all of it when it is shorter.
pub fn truncate(s: &str, max_length: usize) -> (r: String)
    requires
        s.spec_bytes().len() <= usize::MAX,
        max_length < s.spec_bytes().len() ==> is_char_boundary(s.spec_bytes(), max_length as int),
    ensures
        encode_utf8(r@) == if s.spec_bytes().len() <= max_length {
            s.spec_bytes()
        } else {
            s.spec_bytes().subrange(0, max_length as int)
        },
{
    if s.len() <= max_length {
        let r = s.to_owned();
        assert(s.spec_bytes() == encode_utf8(s@));
        r
    } else {
        let (head, _) = s.split_at(max_length);
        let r = head.to_owned();
        assert(head.spec_bytes() == s.spec_bytes().subrange(0, max_length as int));
        assert(head.spec_bytes() == encode_utf8(head@));
        r
    }
}

/// `s` cut to `max_length` bytes, ending in `...` when it was cut and there
/// is room for the dots.
pub fn truncate_with_ellipsis(s: &str, max_length: usize) -> (r: String)
    requires
        s.spec_bytes().len() <= usize::MAX,
        max_length < s.spec_bytes().len() && max_length < 3 ==> is_char_boundary(s.spec_bytes(), max_length as int),
        max_length < s.spec_bytes().len() && max_length >= 3 ==> is_char_boundary(s.spec_bytes(), max_length - 3),
    ensures
        s.spec_bytes().len() <= max_length ==> encode_utf8(r@) == s.spec_bytes(),
        s.spec_bytes().len() > max_length && max_length < 3 ==> encode_utf8(r@) == s.spec_bytes().subrange(0, max_length as int),
        s.spec_bytes().len() > max_length && max_length >= 3 ==> exists|head: Seq<char>|
            encode_utf8(head) == s.spec_bytes().subrange(0, max_length - 3) && r@ == head + "..."@,
{
    if s.len() <= max_length {
        s.to_owned()
    } else if max_length < 3 {
        let (head, _) = s.split_at(max_length);
        head.to_owned()
    } else {
        let (head, _) = s.split_at(max_length - 3);
        let r = head.to_owned().concat("...");
        assert(encode_utf8(head@) == s.spec_bytes().subrange(0, max_length - 3));
        r
    }
}

pub open spec fn all_whitespace(s: Seq<char>) -> bool {
    forall|i: int| 0 <= i < s.len() ==> whitespace(s[i])
}

/// Whether `s` is empty or only white space.
pub fn is_blank(s: &str) -> (r: bool)
    ensures
        r == all_whitespace(s@),
{
    let cs = chars_of(s);
    let mut i: usize = 0;
    while i < cs.len()
        invariant
            cs@ == s@,
            i <= cs@.len(),
            forall|j: int| 0 <= j < i ==> whitespace(cs@[j]),
        decreases cs@.len() - i,
    {
        if !char_is_whitespace(cs[i]) {
            return false;
        }
        i = i + 1;
    }
    true
}

/// Whether `s` is an `i64` written in decimal.
pub fn is_integer(s: &str) -> (r: bool)
    ensures
        r == parses_as_i64(s@),
{
    text_parses_as_i64(s)
}

/// Whether `s` is non-empty and all letters.
pub fn is_alphabetic(s: &str) -> (r: bool)
    ensures
        r == (s@.len() > 0 && forall|i: int| 0 <= i < s@.len() ==> alphabetic(s@[i])),
{
    let cs = chars_of(s);
    if cs.len() == 0 {
        return false;
    }
    let mut i: usize = 0;
    while i < cs.len()
        invariant
            cs@ == s@,
            i <= cs@.len(),
            forall|j: int| 0 <= j < i ==> alphabetic(cs@[j]),
        decreases cs@.len() - i,
    {
        if !char_is_alphabetic(cs[i]) {
            return false;
        }
        i = i + 1;
    }
    true
}

/// Whether `s` is non-empty and all letters or digits.
pub fn is_alphanumeric(s: &str) -> (r: bool)
    ensures
        r == (s@.len() > 0 && forall|i: int| 0 <= i < s@.len() ==> alphanumeric(s@[i])),
{
    let cs = chars_of(s);
    if cs.len() == 0 {
        return false;
    }
    let mut i: usize = 0;
    while i < cs.len()
        invariant
            cs@ == s@,
            i <= cs@.len(),
            forall|j: int| 0 <= j < i ==> alphanumeric(cs@[j]),
        decreases cs@.len() - i,
    {
        if !char_is_alphanumeric(cs[i]) {
            return false;
        }
        i = i + 1;
    }
    true
}

/// How many `@` a prefix holds (counting no further than two), and whether
/// a `.` stands between the first `@` and the second.
pub open spec fn email_scan(s: Seq<char>) -> (nat, bool)
    decreases s.len(),
{
    if s.len() == 0 {
        (0, false)
    } else {
        let (ats, dot) = email_scan(s.drop_last());
        let c = s.last();
        if c == '@' {
            (if ats >= 2 { 2nat } else { (ats + 1) as nat }, dot)
        } else {
            (ats, dot || (ats == 1 && c == '.'))
        }
    }
}

/// A rough check: an `@`, and a `.` in the part after the first `@`.
pub open spec fn looks_like_email(s: Seq<char>) -> bool {
    email_scan(s).0 >= 1 && email_scan(s).1
}

pub fn is_email(s: &str) -> (r: bool)
    ensures
        r == looks_like_email(s@),
{
    let cs = chars_of(s);
    let mut ats: usize = 0;
    let mut dot = false;
    let mut i: usize = 0;
    while i < cs.len()
        invariant
            cs@ == s@,
            i <= cs@.len(),
            (ats as nat, dot) == email_scan(cs@.subrange(0, i as int)),
            ats <= 2,
        decreases cs@.len() - i,
    {
        assert(cs@.subrange(0, i + 1).drop_last() =~= cs@.subrange(0, i as int));
        let c = cs[i];
        let ghost prefix = cs@.subrange(0, i + 1);
        assert(prefix.last() == c);
        if c == '@' {
            if ats < 2 {
                ats = ats + 1;
            }
        } else if ats == 1 && c == '.' {
            dot = true;
        }
        i = i + 1;
    }
    assert(cs@.subrange(0, cs@.len() as int) =~= cs@);
    ats >= 1 && dot
}

/// A rough check: the text starts with `http://`, `https://` or `ftp://`.
pub fn is_url(s: &str) -> (r: bool)
    ensures
        r == (begins_with(s@, "http://"@) || begins_with(s@, "https://"@) || begins_with(s@, "ftp://"@)),
{
    starts_with(s, "http://") || starts_with(s, "https://") || starts_with(s, "ftp://")
}

/// snake_case (`sep` is `_`) and kebab-case (`sep` is `-`, and `_` and
/// space become `-` too): a capital that follows a non-capital is preceded
/// by `sep`, and every capital is lowered. The flag says whether the text
/// ends in a capital.
pub open spec fn separated(s: Seq<char>, sep: char) -> (Seq<char>, bool)
    decreases s.len(),
{
    if s.len() == 0 {
        (Seq::empty(), false)
    } else {
        let (out, prev_upper) = separated(s.drop_last(), sep);
        let c = s.last();
        if uppercase(c) {
            let out2 = if s.len() > 1 && !prev_upper { out.push(sep) } else { out };
            (out2.push(lower_first(c)), true)
        } else if sep == '-' && (c == '_' || c == ' ') {
            (out.push('-'), false)
        } else {
            (out.push(c), false)
        }
    }
}

fn to_separated_case(s: &str, sep: char) -> (r: String)
    requires
        sep == '_' || sep == '-',
    ensures
        r@ == separated(s@, sep).0,
{
    let cs = chars_of(s);
    let mut out: Vec<char> = Vec::new();
    let mut prev_upper = false;
    let mut i: usize = 0;
    while i < cs.len()
        invariant
            cs@ == s@,
            i <= cs@.len(),
            (out@, prev_upper) == separated(cs@.subrange(0, i as int), sep),
        decreases cs@.len() - i,
    {
        assert(cs@.subrange(0, i + 1).drop_last() =~= cs@.subrange(0, i as int));
        let c = cs[i];
        if char_is_uppercase(c) {
            if i > 0 && !prev_upper {
                out.push(sep);
            }
            out.push(char_lower_first(c));
            prev_upper = true;
        } else if sep == '-' && (c == '_' || c == ' ') {
            out.push('-');
            prev_upper = false;
        } else {
            out.push(c);
            prev_upper = false;
        }
        i = i + 1;
    }
    assert(cs@.subrange(0, cs@.len() as int) =~= cs@);
    string_of(&out)
}

pub fn to_snake_case(s: &str) -> (r: String)
    ensures
        r@ == separated(s@, '_').0,
{
    to_separated_case(s, '_')
}

pub fn to_kebab_case(s: &str) -> (r: String)
    ensures
        r@ == separated(s@, '-').0,
{
    to_separated_case(s, '-')
}

/// camelCase and PascalCase: `_`, `-` and space are dropped and the
/// character after one is raised. `first` says whether the first character
/// is raised too. The flag says whether the next character is to be raised.
pub open spec fn joined(s: Seq<char>, first: bool) -> (Seq<char>, bool)
    decreases s.len(),
{
    if s.len() == 0 {
        (Seq::empty(), first)
    } else {
        let (out, raise) = joined(s.drop_last(), first);
        let c = s.last();
        if c == '_' || c == '-' || c == ' ' {
            (out, true)
        } else if raise {
            (out.push(upper_first(c)), false)
        } else {
            (out.push(c), false)
        }
    }
}

fn to_joined_case(s: &str, first: bool) -> (r: String)
    ensures
        r@ == joined(s@, first).0,
{
    let cs = chars_of(s);
    let mut out: Vec<char> = Vec::new();
    let mut raise = first;
    let mut i: usize = 0;
    while i < cs.len()
        invariant
            cs@ == s@,
            i <= cs@.len(),
            (out@, raise) == joined(cs@.subrange(0, i as int), first),
        decreases cs@.len() - i,
    {
        assert(cs@.subrange(0, i + 1).drop_last() =~= cs@.subrange(0, i as int));
        let c = cs[i];
        if c == '_' || c == '-' || c == ' ' {
            raise = true;
        } else if raise {
            out.push(char_upper_first(c));
            raise = false;
        } else {
            out.push(c);
        }
        i = i + 1;
    }
    assert(cs@.subrange(0, cs@.len() as int) =~= cs@);
    string_of(&out)
}

pub fn to_camel_case(s: &str) -> (r: String)
    ensures
        r@ == joined(s@, false).0,
{
    to_joined_case(s, false)
}

pub fn to_pascal_case(s: &str) -> (r: String)
    ensures
        r@ == joined(s@, true).0,
{
    to_joined_case(s, true)
}

} // verus!
