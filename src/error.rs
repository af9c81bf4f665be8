use vstd::prelude::*;

verus! {

/// The error envelope of every failed request: a numeric code and a
/// human-readable message.
pub struct JsonErr {
    pub code: i32,
    pub msg: String,
}

/// The HTTP status a code maps to: the code itself when it is a valid
/// status (100 to 999), otherwise 400.
pub open spec fn status_of(code: i32) -> u16 {
    if 100 <= code <= 999 {
        code as u16
    } else {
        400
    }
}

impl JsonErr {
    pub fn from_error(code: i32, msg: String) -> (r: JsonErr)
        ensures
            r.code == code,
            r.msg@ == msg@,
    {
        JsonErr { code, msg }
    }

    /// The HTTP status of the response that carries this error.
    pub fn status(&self) -> (r: u16)
        ensures
            r == status_of(self.code),
    {
        if 100 <= self.code && self.code <= 999 {
            self.code as u16
        } else {
            400
        }
    }
}

/// Fails with the given code and message.
pub fn res_error(code: i32, msg: String) -> (r: Result<std::convert::Infallible, JsonErr>)
    ensures
        r matches Err(e) && e.code == code && e.msg@ == msg@,
{
    Err(JsonErr::from_error(code, msg))
}

} // verus!
