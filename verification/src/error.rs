use vstd::prelude::*;
use vstd::string::StringExecFns;
use crate::DecodeError;
use crate::decimal::int_text;
use crate::decimal::int_to_text;
use crate::json::JsonData;
use crate::json::JsonValue;
use crate::json::get_int;
use crate::json::get_str;
use crate::json::spec_get_int;
use crate::json::spec_get_str;

verus! {

/// The structured error body the remote service sends with a non-success
/// response: a numeric code and a message, whatever the originating cause.
#[derive(Clone, Debug)]
pub struct Error {
    /// The service's numeric error code.
    pub code: i32,
    /// The service's human-readable message.
    pub message: String,
}

/// The one-line rendering of a remote error: the code in parentheses,
/// a space, and the message.
pub open spec fn spec_error_text(e: Error) -> Seq<char> {
    seq!['('] + int_text(e.code as int) + seq![')', ' '] + e.message@
}

/// What a JSON body must hold to be a remote error: an object with an
/// integral `code` within 32-bit range and a string `message`.
pub open spec fn spec_error_from_json(j: JsonData) -> Result<(int, Seq<char>), DecodeError> {
    match j {
        JsonData::Obj(fs) => match spec_get_int(fs, "code"@) {
            Ok(c) => if i32::MIN <= c <= i32::MAX {
                match spec_get_str(fs, "message"@) {
                    Ok(m) => Ok((c, m)),
                    Err(e) => Err(e),
                }
            } else {
                Err(DecodeError::MalformedBody)
            },
            Err(e) => Err(e),
        },
        _ => Err(DecodeError::MalformedBody),
    }
}

impl Error {
    /// Assembles a remote error value.
    pub fn new(code: i32, message: String) -> (r: Error)
        ensures
            r.code == code,
            r.message == message,
    {
        Error { code, message }
    }

    /// Writes this error on one line: `(code) message`.
    pub fn render(&self) -> (s: String)
        ensures
            s@ == spec_error_text(*self),
    {
        proof {
            reveal_strlit("(");
            reveal_strlit(") ");
        }
        let mut s = String::from_str("(");
        let code_text = int_to_text(self.code as i64);
        s.append(code_text.as_str());
        s.append(") ");
        s.append(self.message.as_str());
        proof {
            assert(s@ =~= spec_error_text(*self));
        }
        s
    }

    /// Reads a remote error out of a decoded JSON body.
    pub fn from_json(j: &JsonValue) -> (r: Result<Error, DecodeError>)
        ensures
            match spec_error_from_json(j@) {
                Ok(cm) => r matches Ok(e) && e.code as int == cm.0 && e.message@ == cm.1,
                Err(er) => r matches Err(e2) && e2 == er,
            },
    {
        match j {
            JsonValue::Obj(fields) => {
                let c = match get_int(fields, "code") {
                    Ok(c) => c,
                    Err(e) => {
                        return Err(e);
                    },
                };
                if c < i32::MIN as i64 || c > i32::MAX as i64 {
                    return Err(DecodeError::MalformedBody);
                }
                let m = match get_str(fields, "message") {
                    Ok(m) => m,
                    Err(e) => {
                        return Err(e);
                    },
                };
                Ok(Error { code: c as i32, message: m })
            },
            _ => Err(DecodeError::MalformedBody),
        }
    }
}

} // verus!
