use vstd::prelude::*;

use validator::ValidateLength;

use crate::text::owned;

verus! {

/// A translated message as an administrator submits it: the language, the
/// message's code and its text.
#[derive(Debug, Clone, PartialEq)]
pub struct Form {
    pub lang: String,
    pub code: String,
    pub message: String,
}

/// A field of `Form`.
#[derive(Debug, Clone, Copy, PartialEq, Eq, Structural)]
pub enum Field {
    Lang,
    Code,
    Message,
}

impl Field {
    /// The field's name in a submitted form.
    pub open spec fn name_spec(self) -> Seq<char> {
        match self {
            Field::Lang => "lang"@,
            Field::Code => "code"@,
            Field::Message => "message"@,
        }
    }

    /// The field's name in a submitted form.
    pub fn name(&self) -> (r: String)
        ensures
            r@ == self.name_spec(),
    {
        match self {
            Field::Lang => owned("lang"),
            Field::Code => owned("code"),
            Field::Message => owned("message"),
        }
    }
}

/// validator's length check `ValidateLength::validate_length(s, Some(min),
/// None, None)`. Claimed, from validator's source: a string's length is the
/// number of its characters, and the check passes exactly when that number
/// is at least `min`.
#[verifier::external_body]
fn length_at_least(s: &String, min: u64) -> (r: bool)
    ensures
        r == (s@.len() >= min),
{
    s.validate_length(Some(min), None, None)
}

/// The least number of characters that each field of a form must hold.
pub const MIN_LENGTH: u64 = 1;

impl Form {
    /// The fields of the form that hold fewer than `MIN_LENGTH` characters,
    /// in the order lang, code, message.
    pub open spec fn invalid_fields(self) -> Seq<Field> {
        let a = if self.lang@.len() < MIN_LENGTH { seq![Field::Lang] } else { seq![] };
        let b = if self.code@.len() < MIN_LENGTH { seq![Field::Code] } else { seq![] };
        let c = if self.message@.len() < MIN_LENGTH { seq![Field::Message] } else { seq![] };
        a + b + c
    }

    /// Checks that every field holds at least one character; otherwise
    /// names the fields that do not.
    pub fn validate(&self) -> (r: Result<(), Vec<Field>>)
        ensures
            r is Ok <==> self.invalid_fields().len() == 0,
            r matches Err(fields) ==> fields@ == self.invalid_fields(),
    {
        let mut bad: Vec<Field> = Vec::new();
        if !length_at_least(&self.lang, MIN_LENGTH) {
            bad.push(Field::Lang);
        }
        if !length_at_least(&self.code, MIN_LENGTH) {
            bad.push(Field::Code);
        }
        if !length_at_least(&self.message, MIN_LENGTH) {
            bad.push(Field::Message);
        }
        proof {
            assert(bad@ =~= self.invalid_fields());
        }
        if bad.len() == 0 {
            Ok(())
        } else {
            Err(bad)
        }
    }
}

/// A form passes its check exactly when none of its fields is empty.
pub proof fn lemma_valid_iff_no_empty_field(form: Form)
    ensures
        form.invalid_fields().len() == 0 <==> (form.lang@.len() > 0 && form.code@.len() > 0
            && form.message@.len() > 0),
{
}

} // verus!
