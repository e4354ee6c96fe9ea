//! Submitted forms: finding a required field and reading a number.
//!
//! A form arrives decoded, as the list of its name and value pairs in the
//! order sent. A required field is one that the form holds exactly once: a
//! form without it, or with it twice, is malformed.

use vstd::prelude::*;
use crate::error::MyError;

verus! {

/// What a decoded form is, mathematically: its pairs of name and value.
pub type Fields = Seq<(Seq<char>, Seq<char>)>;

/// The name of the field that carries a new entry's text.
pub const TEXT_FIELD: &'static str = "text";

/// The name of the field that carries the identifier of an entry to delete.
pub const ID_FIELD: &'static str = "id";

/// The pairs that a decoded form stands for.
pub open spec fn fields_of(form: Seq<(String, String)>) -> Fields {
    Seq::new(form.len(), |i: int| (form[i].0@, form[i].1@))
}

/// Pair `i` carries the name, and no other pair does.
pub open spec fn is_sole(fields: Fields, name: Seq<char>, i: int) -> bool {
    &&& 0 <= i < fields.len()
    &&& fields[i].0 == name
    &&& forall|j: int| 0 <= j < fields.len() && j != i ==> (#[trigger] fields[j]).0 != name
}

/// The value of the field with the given name, where the form holds that
/// name exactly once.
pub open spec fn sole_value(fields: Fields, name: Seq<char>) -> Option<Seq<char>> {
    if exists|i: int| is_sole(fields, name, i) {
        Some(fields[choose|i: int| is_sole(fields, name, i)].1)
    } else {
        None
    }
}

/// The character is one of the ten decimal digits.
pub open spec fn is_digit(c: char) -> bool {
    '0' <= c <= '9'
}

/// Every character is a decimal digit.
pub open spec fn all_digits(s: Seq<char>) -> bool {
    forall|i: int| 0 <= i < s.len() ==> is_digit(#[trigger] s[i])
}

/// The number that a run of decimal digits denotes.
pub open spec fn digits_value(s: Seq<char>) -> nat
    decreases s.len(),
{
    if s.len() == 0 {
        0
    } else {
        10 * digits_value(s.drop_last()) + (s.last() as nat - '0' as nat) as nat
    }
}

/// A numeral without the one `+` that may lead it.
pub open spec fn unsigned_part(s: Seq<char>) -> Seq<char> {
    if s.len() > 0 && s[0] == '+' {
        s.drop_first()
    } else {
        s
    }
}

/// The number that a text denotes as a `u32`: after at most one leading `+`,
/// one or more decimal digits whose value fits. Anything else, an empty
/// text, a `-`, a blank, a value too large, denotes none.
pub open spec fn decimal_u32(s: Seq<char>) -> Option<u32> {
    let digits = unsigned_part(s);
    if digits.len() > 0 && all_digits(digits) && digits_value(digits) <= u32::MAX {
        Some(digits_value(digits) as u32)
    } else {
        None
    }
}

/// The text of a new entry, as a form for adding gives it.
pub open spec fn add_params(fields: Fields) -> Option<Seq<char>> {
    sole_value(fields, TEXT_FIELD@)
}

/// The identifier to delete, as a form for deleting gives it.
pub open spec fn delete_params(fields: Fields) -> Option<u32> {
    match sole_value(fields, ID_FIELD@) {
        Some(value) => decimal_u32(value),
        None => None,
    }
}

/// The value of a run of digits is at least the value of each of its
/// prefixes.
pub proof fn lemma_digits_value_grows(s: Seq<char>, k: int)
    requires
        0 <= k <= s.len(),
    ensures
        digits_value(s.take(k)) <= digits_value(s),
    decreases s.len(),
{
    if k == s.len() {
        assert(s.take(k) =~= s);
    } else {
        lemma_digits_value_grows(s.drop_last(), k);
        assert(s.drop_last().take(k) =~= s.take(k));
    }
}

/// Looks a required field up: its value where the form holds the name
/// exactly once, nothing where the name is missing or repeated.
pub fn required_field<'a>(form: &'a Vec<(String, String)>, name: &str) -> (value: Option<
    &'a String,
>)
    ensures
        match value {
            Some(found) => sole_value(fields_of(form@), name@) == Some(found@),
            None => sole_value(fields_of(form@), name@) is None,
        },
{
    let key = name.to_owned();
    let ghost fields = fields_of(form@);
    let mut first: Option<usize> = None;
    let mut repeated = false;
    let mut i: usize = 0;
    while i < form.len()
        invariant
            i <= form.len(),
            fields == fields_of(form@),
            key@ == name@,
            match first {
                Some(k) => {
                    &&& k < i
                    &&& fields[k as int].0 == name@
                    &&& forall|j: int| 0 <= j < k ==> (#[trigger] fields[j]).0 != name@
                },
                None => forall|j: int| 0 <= j < i ==> (#[trigger] fields[j]).0 != name@,
            },
            repeated ==> first is Some && exists|j: int|
                first->0 < j < i && (#[trigger] fields[j]).0 == name@,
            !repeated && first is Some ==> forall|j: int|
                first->0 < j < i ==> (#[trigger] fields[j]).0 != name@,
        decreases form.len() - i,
    {
        if form[i].0 == key {
            assert(fields[i as int].0 == name@);
            if first.is_some() {
                repeated = true;
            } else {
                first = Some(i);
            }
        } else {
            assert(fields[i as int].0 != name@);
        }
        i += 1;
    }
    match first {
        Some(k) => {
            if repeated {
                proof {
                    let j = choose|j: int| k < j < i && (#[trigger] fields[j]).0 == name@;
                    assert forall|s: int| !is_sole(fields, name@, s) by {
                        if is_sole(fields, name@, s) {
                            if s == k as int {
                                assert(fields[j].0 != name@);
                            } else {
                                assert(fields[k as int].0 != name@);
                            }
                        }
                    }
                }
                None
            } else {
                proof {
                    assert(is_sole(fields, name@, k as int));
                    let s = choose|s: int| is_sole(fields, name@, s);
                    if s != k as int {
                        assert(fields[k as int].0 != name@);
                    }
                }
                Some(&form[k].1)
            }
        },
        None => {
            proof {
                assert forall|s: int| !is_sole(fields, name@, s) by {
                    if is_sole(fields, name@, s) {
                        assert(fields[s].0 != name@);
                    }
                }
            }
            None
        },
    }
}

/// Reads a `u32` in decimal, the way the standard library parses one: an
/// optional `+`, then digits only, and no value beyond the type's range.
pub fn parse_u32(text: &str) -> (value: Option<u32>)
    ensures
        value == decimal_u32(text@),
{
    let ghost s = text@;
    let mut value: u32 = 0;
    let mut valid = true;
    let mut plus = false;
    let mut any = false;
    let mut start = true;
    for c in it: text.chars()
        invariant
            s == text@,
            it.seq() == s,
            start == (it.index() == 0),
            plus == (it.index() > 0 && s[0] == '+'),
            valid ==> any == (it.index() > (if plus { 1int } else { 0int })),
            valid ==> all_digits(s.subrange(if plus { 1int } else { 0int }, it.index() as int))
                && value == digits_value(
                s.subrange(if plus { 1int } else { 0int }, it.index() as int),
            ),
            !valid ==> decimal_u32(s) is None,
    {
        let ghost k = it.index() as int;
        let ghost from = if plus { 1int } else { 0int };
        if start && c == '+' {
            plus = true;
            proof {
                assert(s.subrange(1, 1) =~= Seq::<char>::empty());
            }
        } else if valid {
            let ghost before = s.subrange(from, k);
            let ghost after = s.subrange(from, k + 1);
            proof {
                assert(after.drop_last() =~= before);
                assert(after.last() == c);
                assert(unsigned_part(s) =~= s.subrange(from, s.len() as int));
                assert(unsigned_part(s)[k - from] == c);
            }
            if '0' <= c && c <= '9' {
                let d: u32 = c as u32 - '0' as u32;
                if value > (u32::MAX - d) / 10 {
                    valid = false;
                    proof {
                        assert(digits_value(after) > u32::MAX);
                        if all_digits(unsigned_part(s)) {
                            lemma_digits_value_grows(unsigned_part(s), k + 1 - from);
                            assert(unsigned_part(s).take(k + 1 - from) =~= after);
                        }
                    }
                } else {
                    value = value * 10 + d;
                    any = true;
                }
            } else {
                valid = false;
            }
        }
        start = false;
    }
    proof {
        let from = if plus { 1int } else { 0int };
        assert(unsigned_part(s) =~= s.subrange(from, s.len() as int));
    }
    if valid && any {
        Some(value)
    } else {
        None
    }
}

/// The parameters of a request to add an entry.
#[derive(Debug)]
pub struct AddParams {
    pub text: String,
}

/// The parameters of a request to delete an entry.
#[derive(Debug)]
pub struct DeleteParams {
    pub id: u32,
}

impl AddParams {
    /// Reads the parameters from a form: the value of its one `text` field,
    /// kept as it is, be it empty or blank. A form without that field, or
    /// with more than one, is the client's error.
    pub fn parse(form: &Vec<(String, String)>) -> (params: Result<AddParams, MyError>)
        ensures
            match params {
                Ok(found) => add_params(fields_of(form@)) == Some(found.text@),
                Err(error) => error == MyError::ClientInput && add_params(fields_of(form@)) is None,
            },
    {
        match required_field(form, TEXT_FIELD) {
            Some(value) => Ok(AddParams { text: value.clone() }),
            None => Err(MyError::ClientInput),
        }
    }
}

impl DeleteParams {
    /// Reads the parameters from a form: the number in its one `id` field. A
    /// form without that field, with more than one, or with a value that is
    /// no `u32` in decimal, is the client's error.
    pub fn parse(form: &Vec<(String, String)>) -> (params: Result<DeleteParams, MyError>)
        ensures
            match params {
                Ok(found) => delete_params(fields_of(form@)) == Some(found.id),
                Err(error) => error == MyError::ClientInput && delete_params(fields_of(form@))
                    is None,
            },
    {
        match required_field(form, ID_FIELD) {
            Some(value) => match parse_u32(value.as_str()) {
                Some(id) => Ok(DeleteParams { id }),
                None => Err(MyError::ClientInput),
            },
            None => Err(MyError::ClientInput),
        }
    }
}

} // verus!
