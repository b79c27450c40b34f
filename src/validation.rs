//! Field validation that collects error messages per field.
use vstd::prelude::*;
use vstd::string::StringSliceAdditionalSpecFns;
use crate::strings::{all_whitespace, is_blank, is_email, is_url, looks_like_email};
use crate::text::{begins_with, decimal, decimal_text, parses_as_i64};
use crate::strings::is_integer;

verus! {

/// Whether the regular expression `pattern` compiles (`Some`) and matches
/// somewhere in `text`.
pub uninterp spec fn regex_match(pattern: Seq<char>, text: Seq<char>) -> Option<bool>;

/// Relies on regex::Regex::new and Regex::is_match: `None` when the pattern
/// does not compile, else whether it matches the text.
#[verifier::external_body]
fn regex_is_match(pattern: &str, text: &str) -> (r: Option<bool>)
    ensures
        r == regex_match(pattern@, text@),
{
    match regex::Regex::new(pattern) {
        Ok(re) => Some(re.is_match(text)),
        Err(_) => None,
    }
}

pub open spec fn email_pattern() -> Seq<char> {
    "^[a-zA-Z0-9._%+-]+@[a-zA-Z0-9.-]+\\.[a-zA-Z]{2,}$"@
}

pub open spec fn username_pattern() -> Seq<char> {
    "^[a-zA-Z0-9_-]{3,16}$"@
}

/// Whether `email` is an address: a local part, `@`, a dotted domain.
pub fn validate_email(email: &str) -> (r: bool)
    ensures
        r == (regex_match(email_pattern(), email@) == Some(true)),
{
    regex_is_match("^[a-zA-Z0-9._%+-]+@[a-zA-Z0-9.-]+\\.[a-zA-Z]{2,}$", email) == Some(true)
}

/// Whether `username` is three to sixteen letters, digits, `_` or `-`.
pub fn validate_username(username: &str) -> (r: bool)
    ensures
        r == (regex_match(username_pattern(), username@) == Some(true)),
{
    regex_is_match("^[a-zA-Z0-9_-]{3,16}$", username) == Some(true)
}

pub open spec fn ascii_letter(c: char) -> bool {
    ('a' <= c && c <= 'z') || ('A' <= c && c <= 'Z')
}

pub open spec fn ascii_digit(c: char) -> bool {
    '0' <= c && c <= '9'
}

/// The password rule: at least eight characters, all ASCII letters or
/// digits, with at least one letter and at least one digit.
pub open spec fn acceptable_password(s: Seq<char>) -> bool {
    &&& s.len() >= 8
    &&& forall|i: int| 0 <= i < s.len() ==> ascii_letter(s[i]) || ascii_digit(s[i])
    &&& exists|i: int| 0 <= i < s.len() && ascii_letter(s[i])
    &&& exists|i: int| 0 <= i < s.len() && ascii_digit(s[i])
}

/// Whether `password` meets the password rule.
pub fn validate_password(password: &str) -> (r: bool)
    ensures
        r == acceptable_password(password@),
{
    let cs = crate::text::chars_of(password);
    let mut letter = false;
    let mut digit = false;
    let mut i: usize = 0;
    while i < cs.len()
        invariant
            cs@ == password@,
            i <= cs@.len(),
            forall|j: int| 0 <= j < i ==> ascii_letter(cs@[j]) || ascii_digit(cs@[j]),
            letter == exists|j: int| 0 <= j < i && ascii_letter(cs@[j]),
            digit == exists|j: int| 0 <= j < i && ascii_digit(cs@[j]),
        decreases cs@.len() - i,
    {
        let c = cs[i];
        let is_letter = ('a' <= c && c <= 'z') || ('A' <= c && c <= 'Z');
        let is_digit = '0' <= c && c <= '9';
        if !is_letter && !is_digit {
            return false;
        }
        proof {
            if is_letter {
                assert(ascii_letter(cs@[i as int]));
            }
            if is_digit {
                assert(ascii_digit(cs@[i as int]));
            }
        }
        letter = letter || is_letter;
        digit = digit || is_digit;
        i = i + 1;
    }
    cs.len() >= 8 && letter && digit
}

/// One failed check: the field and why.
pub struct ValidationError {
    pub field: String,
    pub message: String,
}

/// The messages recorded for one field, oldest first.
pub struct FieldErrors {
    pub field: String,
    pub messages: Vec<String>,
}

/// The errors of a validator: field names with their messages, fields in the
/// order of their first error.
pub open spec fn view_errors(errors: Seq<FieldErrors>) -> Seq<(Seq<char>, Seq<Seq<char>>)> {
    errors.map_values(|e: FieldErrors| (e.field@, e.messages@.map_values(|m: String| m@)))
}

/// `errors` with `message` recorded for `field`.
pub open spec fn with_error(
    errors: Seq<(Seq<char>, Seq<Seq<char>>)>,
    field: Seq<char>,
    message: Seq<char>,
) -> Seq<(Seq<char>, Seq<Seq<char>>)> {
    if exists|i: int| 0 <= i < errors.len() && errors[i].0 == field {
        let i = choose|i: int| 0 <= i < errors.len() && errors[i].0 == field;
        errors.update(i, (field, errors[i].1.push(message)))
    } else {
        errors.push((field, seq![message]))
    }
}

/// The message to record: the caller's, or the default.
pub open spec fn chosen(message: Option<&str>, default: Seq<char>) -> Seq<char> {
    match message {
        Some(m) => m@,
        None => default,
    }
}

pub open spec fn min_length_text(min: usize) -> Seq<char> {
    "Field must be at least "@ + decimal(min as nat) + " characters long"@
}

pub open spec fn max_length_text(max: usize) -> Seq<char> {
    "Field must be at most "@ + decimal(max as nat) + " characters long"@
}

pub open spec fn length_range_text(min: usize, max: usize) -> Seq<char> {
    "Field must be between "@ + decimal(min as nat) + " and "@ + decimal(max as nat) + " characters long"@
}

fn chosen_text(message: Option<&str>, default: String) -> (r: String)
    ensures
        r@ == chosen(message, default@),
{
    match message {
        Some(m) => m.to_owned(),
        None => default,
    }
}

/// Collects validation errors, several per field.
pub struct Validator {
    pub errors: Vec<FieldErrors>,
}

impl Validator {
    pub open spec fn view(&self) -> Seq<(Seq<char>, Seq<Seq<char>>)> {
        view_errors(self.errors@)
    }

    /// No field is listed twice.
    pub open spec fn wf(&self) -> bool {
        forall|i: int, j: int|
            0 <= i < self.errors@.len() && 0 <= j < self.errors@.len() && i != j ==> self.errors@[i].field@
                != self.errors@[j].field@
    }

    pub fn new() -> (v: Validator)
        ensures
            v.wf(),
            v.view() == Seq::<(Seq<char>, Seq<Seq<char>>)>::empty(),
    {
        let v = Validator { errors: Vec::new() };
        assert(v.view() =~= Seq::<(Seq<char>, Seq<Seq<char>>)>::empty());
        v
    }

    fn record(&mut self, field: &str, message: String)
        requires
            old(self).wf(),
        ensures
            final(self).wf(),
            final(self).view() == with_error(old(self).view(), field@, message@),
    {
        let name: String = field.to_owned();
        let ghost before = self.view();
        let mut i: usize = 0;
        while i < self.errors.len()
            invariant
                *self == *old(self),
                self.wf(),
                before == self.view(),
                name@ == field@,
                i <= self.errors@.len(),
                forall|j: int| 0 <= j < i ==> self.errors@[j].field@ != field@,
            decreases self.errors@.len() - i,
        {
            if self.errors[i].field == name {
                assert(before[i as int].0 == field@);
                assert forall|k: int| 0 <= k < before.len() && before[k].0 == field@ implies k == i by {
                    assert(before[k].0 == self.errors@[k].field@);
                }
                let ghost old_msgs = self.errors@[i as int].messages@;
                let e = &mut self.errors[i];
                e.messages.push(message);
                proof {
                    let f = |m: String| m@;
                    assert(self.errors@[i as int].messages@ == old_msgs.push(message));
                    assert(self.errors@[i as int].messages@.map_values(f) =~= old_msgs.map_values(f).push(message@));
                    assert(self.errors@[i as int].field@ == field@);
                    assert(self.view()[i as int] == (field@, before[i as int].1.push(message@)));
                    assert forall|k: int| 0 <= k < before.len() && k != i implies self.view()[k] == before[k] by {
                        assert(self.errors@[k] == old(self).errors@[k]);
                    }
                }
                assert(self.view() =~= before.update(i as int, (field@, before[i as int].1.push(message@))));
                return;
            }
            i = i + 1;
        }
        let mut messages: Vec<String> = Vec::new();
        messages.push(message);
        let ghost msgs = messages@;
        self.errors.push(FieldErrors { field: name, messages });
        proof {
            assert forall|k: int| 0 <= k < before.len() implies before[k].0 != field@ by {
                assert(before[k].0 == self.errors@[k].field@);
            }
            let f = |m: String| m@;
            assert(msgs.map_values(f) =~= seq![message@]);
            let last = before.len() as int;
            assert(self.view()[last] == (field@, seq![message@]));
        }
        assert(self.view() =~= before.push((field@, seq![message@])));
    }

    /// Records `message` for `field`.
    pub fn add_error(&mut self, field: &str, message: &str) -> (r: &mut Self)
        requires
            old(self).wf(),
        ensures
            r.wf(),
            r.view() == with_error(old(self).view(), field@, message@),
            *final(self) == *final(r),
    {
        self.record(field, message.to_owned());
        self
    }

    /// Fails a field whose value is empty or blank.
    pub fn validate_not_empty(&mut self, field: &str, value: &str, message: Option<&str>) -> (r: &mut Self)
        requires
            old(self).wf(),
        ensures
            r.wf(),
            r.view() == if all_whitespace(value@) {
                with_error(old(self).view(), field@, chosen(message, "Field cannot be empty"@))
            } else {
                old(self).view()
            },
            *final(self) == *final(r),
    {
        if is_blank(value) {
            let msg = chosen_text(message, String::from_str("Field cannot be empty"));
            self.record(field, msg);
        }
        self
    }

    /// Fails a field whose value has fewer than `min` bytes.
    pub fn validate_min_length(&mut self, field: &str, value: &str, min: usize, message: Option<&str>) -> (r: &mut Self)
        requires
            old(self).wf(),
            value.spec_bytes().len() <= usize::MAX,
        ensures
            r.wf(),
            r.view() == if value.spec_bytes().len() < min {
                with_error(old(self).view(), field@, chosen(message, min_length_text(min)))
            } else {
                old(self).view()
            },
            *final(self) == *final(r),
    {
        if value.len() < min {
            let default = String::from_str("Field must be at least ").concat(decimal_text(min).as_str()).concat(" characters long");
            let msg = chosen_text(message, default);
            self.record(field, msg);
        }
        self
    }

    /// Fails a field whose value has more than `max` bytes.
    pub fn validate_max_length(&mut self, field: &str, value: &str, max: usize, message: Option<&str>) -> (r: &mut Self)
        requires
            old(self).wf(),
            value.spec_bytes().len() <= usize::MAX,
        ensures
            r.wf(),
            r.view() == if value.spec_bytes().len() > max {
                with_error(old(self).view(), field@, chosen(message, max_length_text(max)))
            } else {
                old(self).view()
            },
            *final(self) == *final(r),
    {
        if value.len() > max {
            let default = String::from_str("Field must be at most ").concat(decimal_text(max).as_str()).concat(" characters long");
            let msg = chosen_text(message, default);
            self.record(field, msg);
        }
        self
    }

    /// Fails a field whose value's byte length is outside `min..=max`.
    pub fn validate_length_range(&mut self, field: &str, value: &str, min: usize, max: usize, message: Option<&str>) -> (r: &mut Self)
        requires
            old(self).wf(),
            value.spec_bytes().len() <= usize::MAX,
        ensures
            r.wf(),
            r.view() == if value.spec_bytes().len() < min || value.spec_bytes().len() > max {
                with_error(old(self).view(), field@, chosen(message, length_range_text(min, max)))
            } else {
                old(self).view()
            },
            *final(self) == *final(r),
    {
        if value.len() < min || value.len() > max {
            let default = String::from_str("Field must be between ").concat(decimal_text(min).as_str()).concat(" and ").concat(
                decimal_text(max).as_str(),
            ).concat(" characters long");
            let msg = chosen_text(message, default);
            self.record(field, msg);
        }
        self
    }
}

/// Whether `value` is one of `list`.
pub open spec fn listed(list: Seq<&str>, value: Seq<char>) -> bool {
    exists|i: int| 0 <= i < list.len() && list[i]@ == value
}

fn in_list(list: &[&str], value: &str) -> (r: bool)
    ensures
        r == listed(list@, value@),
{
    let wanted: String = value.to_owned();
    let mut i: usize = 0;
    while i < list.len()
        invariant
            wanted@ == value@,
            i <= list@.len(),
            forall|j: int| 0 <= j < i ==> list@[j]@ != value@,
        decreases list@.len() - i,
    {
        let item: String = list[i].to_owned();
        if item == wanted {
            return true;
        }
        i = i + 1;
    }
    false
}

fn same_text(a: &str, b: &str) -> (r: bool)
    ensures
        r == (a@ == b@),
{
    let x: String = a.to_owned();
    let y: String = b.to_owned();
    x == y
}

impl Validator {
    /// Fails a field whose value is not an `i64` in decimal.
    pub fn validate_integer(&mut self, field: &str, value: &str, message: Option<&str>) -> (r: &mut Self)
        requires
            old(self).wf(),
        ensures
            r.wf(),
            r.view() == if !parses_as_i64(value@) {
                with_error(old(self).view(), field@, chosen(message, "Field must be an integer"@))
            } else {
                old(self).view()
            },
            *final(self) == *final(r),
    {
        if !is_integer(value) {
            let msg = chosen_text(message, String::from_str("Field must be an integer"));
            self.record(field, msg);
        }
        self
    }

    /// Fails a field whose value does not look like an email address.
    pub fn validate_email(&mut self, field: &str, value: &str, message: Option<&str>) -> (r: &mut Self)
        requires
            old(self).wf(),
        ensures
            r.wf(),
            r.view() == if !looks_like_email(value@) {
                with_error(old(self).view(), field@, chosen(message, "Field must be a valid email address"@))
            } else {
                old(self).view()
            },
            *final(self) == *final(r),
    {
        if !is_email(value) {
            let msg = chosen_text(message, String::from_str("Field must be a valid email address"));
            self.record(field, msg);
        }
        self
    }

    /// Fails a field whose value does not start like a URL.
    pub fn validate_url(&mut self, field: &str, value: &str, message: Option<&str>) -> (r: &mut Self)
        requires
            old(self).wf(),
        ensures
            r.wf(),
            r.view() == if !(begins_with(value@, "http://"@) || begins_with(value@, "https://"@) || begins_with(value@, "ftp://"@)) {
                with_error(old(self).view(), field@, chosen(message, "Field must be a valid URL"@))
            } else {
                old(self).view()
            },
            *final(self) == *final(r),
    {
        if !is_url(value) {
            let msg = chosen_text(message, String::from_str("Field must be a valid URL"));
            self.record(field, msg);
        }
        self
    }

    /// Fails a field whose value is none of `list`.
    pub fn validate_in_list(&mut self, field: &str, value: &str, list: &[&str], message: Option<&str>) -> (r: &mut Self)
        requires
            old(self).wf(),
        ensures
            r.wf(),
            r.view() == if !listed(list@, value@) {
                with_error(old(self).view(), field@, chosen(message, "Field must be one of the allowed values"@))
            } else {
                old(self).view()
            },
            *final(self) == *final(r),
    {
        if !in_list(list, value) {
            let msg = chosen_text(message, String::from_str("Field must be one of the allowed values"));
            self.record(field, msg);
        }
        self
    }

    /// Fails a field whose value is one of `list`.
    pub fn validate_not_in_list(&mut self, field: &str, value: &str, list: &[&str], message: Option<&str>) -> (r: &mut Self)
        requires
            old(self).wf(),
        ensures
            r.wf(),
            r.view() == if listed(list@, value@) {
                with_error(old(self).view(), field@, chosen(message, "Field must not be one of the forbidden values"@))
            } else {
                old(self).view()
            },
            *final(self) == *final(r),
    {
        if in_list(list, value) {
            let msg = chosen_text(message, String::from_str("Field must not be one of the forbidden values"));
            self.record(field, msg);
        }
        self
    }

    /// Fails a field whose value differs from `other`.
    pub fn validate_equals(&mut self, field: &str, value: &str, other: &str, message: Option<&str>) -> (r: &mut Self)
        requires
            old(self).wf(),
        ensures
            r.wf(),
            r.view() == if value@ != other@ {
                with_error(old(self).view(), field@, chosen(message, "Fields do not match"@))
            } else {
                old(self).view()
            },
            *final(self) == *final(r),
    {
        if !same_text(value, other) {
            let msg = chosen_text(message, String::from_str("Fields do not match"));
            self.record(field, msg);
        }
        self
    }

    /// Fails a field whose value equals `other`.
    pub fn validate_not_equals(&mut self, field: &str, value: &str, other: &str, message: Option<&str>) -> (r: &mut Self)
        requires
            old(self).wf(),
        ensures
            r.wf(),
            r.view() == if value@ == other@ {
                with_error(old(self).view(), field@, chosen(message, "Field must not be equal to the other field"@))
            } else {
                old(self).view()
            },
            *final(self) == *final(r),
    {
        if same_text(value, other) {
            let msg = chosen_text(message, String::from_str("Field must not be equal to the other field"));
            self.record(field, msg);
        }
        self
    }

    pub fn has_errors(&self) -> (r: bool)
        ensures
            r == (self.view().len() > 0),
    {
        self.errors.len() > 0
    }

    /// Every field with errors, and its messages.
    pub fn get_errors(&self) -> (r: &Vec<FieldErrors>)
        ensures
            view_errors(r@) == self.view(),
    {
        &self.errors
    }

    /// The messages recorded for `field`.
    pub fn get_field_errors(&self, field: &str) -> (r: Option<&Vec<String>>)
        ensures
            match r {
                Some(ms) => exists|i: int| 0 <= i < self.view().len() && self.view()[i].0 == field@
                    && self.view()[i].1 == ms@.map_values(|m: String| m@),
                None => forall|i: int| 0 <= i < self.view().len() ==> self.view()[i].0 != field@,
            },
    {
        let name: String = field.to_owned();
        let mut i: usize = 0;
        while i < self.errors.len()
            invariant
                name@ == field@,
                i <= self.errors@.len(),
                forall|j: int| 0 <= j < i ==> self.errors@[j].field@ != field@,
            decreases self.errors@.len() - i,
        {
            if self.errors[i].field == name {
                assert(self.view()[i as int].0 == field@);
                return Some(&self.errors[i].messages);
            }
            i = i + 1;
        }
        assert forall|k: int| 0 <= k < self.view().len() implies self.view()[k].0 != field@ by {
            assert(self.view()[k].0 == self.errors@[k].field@);
        }
        None
    }

    /// The first message recorded for `field`.
    pub fn get_first_field_error(&self, field: &str) -> (r: Option<&String>)
        requires
            self.wf(),
        ensures
            match r {
                Some(m) => exists|i: int| 0 <= i < self.view().len() && self.view()[i].0 == field@
                    && self.view()[i].1.len() > 0 && self.view()[i].1[0] == m@,
                None => forall|i: int| 0 <= i < self.view().len() && self.view()[i].0 == field@
                    ==> self.view()[i].1.len() == 0,
            },
    {
        match self.get_field_errors(field) {
            Some(ms) => {
                if ms.len() > 0 {
                    proof {
                        let i = choose|i: int| 0 <= i < self.view().len() && self.view()[i].0 == field@
                            && self.view()[i].1 == ms@.map_values(|m: String| m@);
                        assert(self.view()[i].1.len() == ms@.len());
                        assert(self.view()[i].1[0] == ms@[0]@);
                        assert(self.view()[i].0 == field@ && self.view()[i].1.len() > 0 && self.view()[i].1[0] == ms@[0]@);
                    }
                    Some(&ms[0])
                } else {
                    None
                }
            },
            None => None,
        }
    }

    /// Every message as `field: message`, field by field.
    pub fn get_all_errors(&self) -> (r: Vec<String>)
        ensures
            r@.map_values(|t: String| t@) == flat_lines(self.view()),
    {
        let mut r: Vec<String> = Vec::new();
        let mut i: usize = 0;
        while i < self.errors.len()
            invariant
                i <= self.errors@.len(),
                r@.map_values(|t: String| t@) == flat_lines(self.view().subrange(0, i as int)),
            decreases self.errors@.len() - i,
        {
            assert(self.view().subrange(0, i + 1).drop_last() =~= self.view().subrange(0, i as int));
            let e = &self.errors[i];
            let ghost base = r@.map_values(|t: String| t@);
            let ghost field = e.field@;
            let ghost msgs = self.view()[i as int].1;
            let mut k: usize = 0;
            while k < e.messages.len()
                invariant
                    e == &self.errors[i as int],
                    field == e.field@,
                    msgs == e.messages@.map_values(|m: String| m@),
                    k <= e.messages@.len(),
                    r@.map_values(|t: String| t@) == base + msgs.subrange(0, k as int).map_values(|m: Seq<char>| field + ": "@ + m),
                decreases e.messages@.len() - k,
            {
                let line = e.field.clone().concat(": ").concat(e.messages[k].as_str());
                assert(line@ == field + ": "@ + msgs[k as int]);
                let ghost prev = r@;
                r.push(line);
                assert(msgs.subrange(0, k + 1) =~= msgs.subrange(0, k as int).push(msgs[k as int]));
                assert(r@.map_values(|t: String| t@) =~= prev.map_values(|t: String| t@).push(line@));
                k = k + 1;
                assert(r@.map_values(|t: String| t@) =~= base + msgs.subrange(0, k as int).map_values(|m: Seq<char>| field + ": "@ + m));
            }
            assert(msgs.subrange(0, msgs.len() as int) =~= msgs);
            assert(self.view()[i as int].0 == field);
            i = i + 1;
        }
        assert(self.view().subrange(0, self.errors@.len() as int) =~= self.view());
        r
    }

    /// Forgets every error.
    pub fn clear(&mut self) -> (r: &mut Self)
        ensures
            r.wf(),
            r.view() == Seq::<(Seq<char>, Seq<Seq<char>>)>::empty(),
            *final(self) == *final(r),
    {
        self.errors.clear();
        assert(self.view() =~= Seq::<(Seq<char>, Seq<Seq<char>>)>::empty());
        self
    }
}

/// Every message as `field: message`, field by field.
pub open spec fn flat_lines(errors: Seq<(Seq<char>, Seq<Seq<char>>)>) -> Seq<Seq<char>>
    decreases errors.len(),
{
    if errors.len() == 0 {
        Seq::empty()
    } else {
        let (field, messages) = errors.last();
        flat_lines(errors.drop_last()) + messages.map_values(|m: Seq<char>| field + ": "@ + m)
    }
}

} // verus!
