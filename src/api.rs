use vstd::prelude::*;

verus! {

/// The code that marks a successful response.
pub const SUCCESS_CODE: u32 = 0;

/// Standard response envelope `{code, msg, data}`; `code == 0` signals success.
pub struct Resp<T> {
    pub code: u32,
    pub msg: String,
    pub data: Option<T>,
}

impl<T> Resp<T> {
    /// A success envelope carrying `data`.
    pub fn success(data: T) -> (r: Self)
        ensures
            r.code == SUCCESS_CODE,
            r.msg@ == "Success"@,
            r.data == Some(data),
    {
        let msg = "Success".to_string();
        Resp { code: SUCCESS_CODE, msg, data: Some(data) }
    }

    /// An error envelope with the given code and message and no data.
    pub fn error(code: u32, msg: String) -> (r: Self)
        ensures
            r.code == code,
            r.msg == msg,
            r.data.is_none(),
    {
        Resp { code, msg, data: None }
    }
}

} // verus!
