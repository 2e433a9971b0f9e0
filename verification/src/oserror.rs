//! Failures of calls into the operating system.
//!
//! A failed call is recorded with the raw numeric code it produced, the name
//! of the call and where it was made, so a caller can both match on the code
//! and report something readable.

use vstd::prelude::*;

verus! {

/// The kind of raw code a failed call produced.
#[derive(Clone, Copy, Debug, PartialEq, Eq, Structural)]
pub enum ErrorCode {
    /// A call that reports failure by returning a null pointer.
    NullPtr,
    /// A plain numeric return code.
    Rc(u32),
    /// A thread-local last-error code.
    LastError(u32),
    /// A signed result code; negative values mean failure.
    HResult(i32),
}

/// A source position recorded with an error.
#[derive(Clone, Copy, Debug, PartialEq, Eq)]
pub struct FileLine(pub &'static str, pub u32);

/// One failed call into the operating system.
#[derive(Clone, Copy, Debug, PartialEq, Eq)]
pub struct ApiError {
    pub code: Option<ErrorCode>,
    pub function: Option<&'static str>,
    pub file_line: Option<FileLine>,
}

impl ApiError {
    /// The same error, with the failing call's name filled in.
    pub fn function(self, function: &'static str) -> (r: ApiError)
        ensures
            r.code == self.code,
            r.function == Some(function),
            r.file_line == self.file_line,
    {
        ApiError { function: Some(function), ..self }
    }

    /// The same error, with the source position filled in.
    pub fn file_line(self, file: &'static str, line: u32) -> (r: ApiError)
        ensures
            r.code == self.code,
            r.function == self.function,
            r.file_line == Some(FileLine(file, line)),
    {
        ApiError { file_line: Some(FileLine(file, line)), ..self }
    }

    pub fn is_nullptr(&self) -> (r: bool)
        ensures
            r == (self.code == Some(ErrorCode::NullPtr)),
    {
        match self.code {
            Some(ErrorCode::NullPtr) => true,
            _ => false,
        }
    }

    pub fn get_rc(&self) -> (r: Option<u32>)
        ensures
            match self.code {
                Some(ErrorCode::Rc(rc)) => r == Some(rc),
                _ => r is None,
            },
    {
        if let Some(ErrorCode::Rc(rc)) = self.code {
            Some(rc)
        } else {
            None
        }
    }

    pub fn get_last_error(&self) -> (r: Option<u32>)
        ensures
            match self.code {
                Some(ErrorCode::LastError(code)) => r == Some(code),
                _ => r is None,
            },
    {
        if let Some(ErrorCode::LastError(code)) = self.code {
            Some(code)
        } else {
            None
        }
    }

    pub fn get_hresult(&self) -> (r: Option<i32>)
        ensures
            match self.code {
                Some(ErrorCode::HResult(hr)) => r == Some(hr),
                _ => r is None,
            },
    {
        if let Some(ErrorCode::HResult(hr)) = self.code {
            Some(hr)
        } else {
            None
        }
    }
}

/// A signed result code means success exactly when it is nonnegative.
pub fn succeeded_or_err(hr: i32) -> (r: Result<i32, ApiError>)
    ensures
        hr >= 0 ==> r == Ok::<i32, ApiError>(hr),
        hr < 0 ==> (r matches Err(e) && e == ApiError {
            code: Some(ErrorCode::HResult(hr)),
            function: None,
            file_line: None,
        }),
{
    if hr >= 0 {
        Ok(hr)
    } else {
        Err(ApiError { code: Some(ErrorCode::HResult(hr)), function: None, file_line: None })
    }
}

/// A boolean-style return code means failure exactly when it is zero; the
/// caller supplies the thread's last-error code for that case.
pub fn true_or_last_err(rv: i32, last_error: u32) -> (r: Result<i32, ApiError>)
    ensures
        rv != 0 ==> r == Ok::<i32, ApiError>(rv),
        rv == 0 ==> (r matches Err(e) && e == ApiError {
            code: Some(ErrorCode::LastError(last_error)),
            function: None,
            file_line: None,
        }),
{
    if rv != 0 {
        Ok(rv)
    } else {
        Err(
            ApiError {
                code: Some(ErrorCode::LastError(last_error)),
                function: None,
                file_line: None,
            },
        )
    }
}

} // verus!

verus! {

/// The decimal text of a nonnegative number, most significant digit first.
pub open spec fn spec_decimal(v: int) -> Seq<char>
    decreases v,
{
    if v < 10 {
        seq![crate::guid::spec_hex_digit(if v < 0 {
            0
        } else {
            v
        })]
    } else {
        spec_decimal(v / 10).push(crate::guid::spec_hex_digit(v % 10))
    }
}

/// Appends the decimal text of `v`.
pub(crate) fn push_decimal(out: &mut String, v: u32)
    ensures
        final(out)@ == old(out)@ + spec_decimal(v as int),
    decreases v,
{
    if v < 10 {
        out.append(crate::guid::hex_digit_str(v as u64));
        assert(final(out)@ =~= old(out)@ + spec_decimal(v as int));
        return ;
    }
    push_decimal(out, v / 10);
    out.append(crate::guid::hex_digit_str((v % 10) as u64));
    assert(final(out)@ =~= old(out)@ + spec_decimal(v as int));
}

/// The printed form of an error: the failing call and place when known,
/// then its raw code, hex codes eight digits wide.
pub open spec fn spec_api_error_text(e: ApiError) -> Seq<char> {
    (match e.function {
        Some(f) => f@ + " "@ + (match e.file_line {
            Some(fl) => fl.0@ + ":"@ + spec_decimal(fl.1 as int) + " "@,
            None => Seq::empty(),
        }) + "failed."@,
        None => Seq::empty(),
    }) + (if e.function is Some && e.code is Some {
        " "@
    } else {
        Seq::empty()
    }) + (match e.code {
        None => Seq::empty(),
        Some(ErrorCode::NullPtr) => "null pointer"@,
        Some(ErrorCode::Rc(rc)) => "rc = 0x"@ + crate::guid::spec_hex(rc as int, 8),
        Some(ErrorCode::LastError(le)) => "GetLastError = 0x"@ + crate::guid::spec_hex(
            le as int,
            8,
        ),
        Some(ErrorCode::HResult(hr)) => "hr = 0x"@ + crate::guid::spec_hex(
            crate::codec::spec_u32_of_i32(hr),
            8,
        ),
    })
}

impl ApiError {
    /// The printed form, for reports and descriptions.
    pub fn describe(&self) -> (r: String)
        ensures
            r@ == spec_api_error_text(*self),
    {
        proof {
            reveal_strlit(" ");
            reveal_strlit(":");
            reveal_strlit("failed.");
            reveal_strlit("null pointer");
            reveal_strlit("rc = 0x");
            reveal_strlit("GetLastError = 0x");
            reveal_strlit("hr = 0x");
        }
        let mut out = String::new();
        match self.function {
            Some(f) => {
                out.append(f);
                out.append(" ");
                match self.file_line {
                    Some(fl) => {
                        out.append(fl.0);
                        out.append(":");
                        push_decimal(&mut out, fl.1);
                        out.append(" ");
                    },
                    None => {},
                }
                out.append("failed.");
            },
            None => {},
        }
        if self.function.is_some() && self.code.is_some() {
            out.append(" ");
        }
        match self.code {
            None => {},
            Some(ErrorCode::NullPtr) => {
                out.append("null pointer");
            },
            Some(ErrorCode::Rc(rc)) => {
                out.append("rc = 0x");
                crate::guid::push_hex(&mut out, rc as u64, 8);
            },
            Some(ErrorCode::LastError(le)) => {
                out.append("GetLastError = 0x");
                crate::guid::push_hex(&mut out, le as u64, 8);
            },
            Some(ErrorCode::HResult(hr)) => {
                out.append("hr = 0x");
                let n: u64 = if hr >= 0 {
                    hr as u64
                } else {
                    (hr as i64 + 0x1_0000_0000) as u64
                };
                crate::guid::push_hex(&mut out, n, 8);
            },
        }
        assert(out@ =~= spec_api_error_text(*self));
        out
    }
}

} // verus!
