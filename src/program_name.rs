//! Names of supervised programs.

use vstd::prelude::*;

verus! {

/// A character allowed in a program name: an ASCII letter or digit, `_` or `-`.
pub open spec fn is_valid_name_char(c: char) -> bool {
    ('a' <= c && c <= 'z') || ('A' <= c && c <= 'Z') || ('0' <= c && c <= '9') || c == '_'
        || c == '-'
}

/// The characters of `s` that may not stand in a program name, in order and
/// with repetitions.
pub open spec fn invalid_chars(s: Seq<char>) -> Seq<char>
    decreases s.len(),
{
    if s.len() == 0 {
        Seq::empty()
    } else {
        let rest = invalid_chars(s.drop_last());
        if is_valid_name_char(s.last()) {
            rest
        } else {
            rest.push(s.last())
        }
    }
}

/// Every character of `s` is allowed in a program name.
pub open spec fn is_valid_name(s: Seq<char>) -> bool {
    forall|i: int| 0 <= i < s.len() ==> is_valid_name_char(#[trigger] s[i])
}

/// A name has no invalid characters exactly when all of its characters are allowed.
pub proof fn lemma_invalid_chars_empty(s: Seq<char>)
    ensures
        invalid_chars(s).len() == 0 <==> is_valid_name(s),
    decreases s.len(),
{
    if s.len() > 0 {
        lemma_invalid_chars_empty(s.drop_last());
        lemma_invalid_chars_len(s.drop_last());
        if is_valid_name(s) {
            assert(is_valid_name(s.drop_last())) by {
                assert forall|i: int| 0 <= i < s.drop_last().len() implies is_valid_name_char(
                    #[trigger] s.drop_last()[i],
                ) by {
                    assert(s.drop_last()[i] == s[i]);
                }
            }
            assert(is_valid_name_char(s[s.len() - 1]));
        } else if is_valid_name(s.drop_last()) && is_valid_name_char(s.last()) {
            assert forall|i: int| 0 <= i < s.len() implies is_valid_name_char(#[trigger] s[i]) by {
                if i < s.len() - 1 {
                    assert(s[i] == s.drop_last()[i]);
                }
            }
        }
    }
}

proof fn lemma_invalid_chars_len(s: Seq<char>)
    ensures
        invalid_chars(s).len() <= s.len(),
    decreases s.len(),
{
    if s.len() > 0 {
        lemma_invalid_chars_len(s.drop_last());
    }
}

/// Checks one character of a program name.
pub fn is_valid_char(c: &char) -> (r: bool)
    ensures
        r == is_valid_name_char(*c),
{
    let c = *c;
    ('a' <= c && c <= 'z') || ('A' <= c && c <= 'Z') || ('0' <= c && c <= '9') || c == '_'
        || c == '-'
}

/// What is wrong with a rejected program name.
#[derive(Debug)]
pub enum ProgramNameErrorKind {
    /// The characters that are not allowed, in order and with repetitions.
    InvalidCharacters(Vec<char>),
}

/// A rejected program name, with the reason.
#[derive(Debug)]
pub struct ProgramNameError {
    pub name: String,
    pub kind: ProgramNameErrorKind,
}

impl ProgramNameError {
    /// The characters that made the name invalid.
    pub fn invalid_characters(&self) -> (r: &Vec<char>)
        ensures
            self.kind matches ProgramNameErrorKind::InvalidCharacters(v) && r@ == v@,
    {
        match &self.kind {
            ProgramNameErrorKind::InvalidCharacters(v) => v,
        }
    }
}

/// A validated program name: ASCII letters and digits, `_` and `-` only.
#[derive(Debug)]
pub struct ProgramName {
    name: String,
}

impl View for ProgramName {
    type V = Seq<char>;

    closed spec fn view(&self) -> Seq<char> {
        self.name@
    }
}

impl ProgramName {
    #[verifier::type_invariant]
    spec fn inv(&self) -> bool {
        is_valid_name(self.name@)
    }

    /// Validates `name`; on failure reports every invalid character in order.
    pub fn try_new(name: &str) -> (r: Result<ProgramName, ProgramNameError>)
        ensures
            invalid_chars(name@).len() == 0 <==> r is Ok,
            r matches Ok(n) ==> n@ == name@,
            r matches Err(e) ==> e.name@ == name@ && (e.kind matches
                ProgramNameErrorKind::InvalidCharacters(v) && v@ == invalid_chars(name@)),
    {
        let n = name.unicode_len();
        let mut invalid: Vec<char> = Vec::new();
        let mut i: usize = 0;
        while i < n
            invariant
                n == name@.len(),
                i <= n,
                invalid@ == invalid_chars(name@.subrange(0, i as int)),
            decreases n - i,
        {
            let c = name.get_char(i);
            assert(name@.subrange(0, i as int + 1).drop_last() =~= name@.subrange(0, i as int));
            if !is_valid_char(&c) {
                invalid.push(c);
            }
            i = i + 1;
        }
        assert(name@.subrange(0, n as int) =~= name@);
        proof {
            lemma_invalid_chars_empty(name@);
        }
        if invalid.len() > 0 {
            return Err(
                ProgramNameError {
                    name: String::from_str(name),
                    kind: ProgramNameErrorKind::InvalidCharacters(invalid),
                },
            );
        }
        Ok(ProgramName { name: String::from_str(name) })
    }

    /// The name as text.
    pub fn as_str(&self) -> (r: &str)
        ensures
            r@ == self@,
    {
        self.name.as_str()
    }
}

} // verus!
