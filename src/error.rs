use vstd::prelude::*;

verus! {

/// Result codes shared with the mini-program client: the push platform's own
/// codes, and the codes that this backend defines for its failures.
#[derive(Copy, Clone, Debug, PartialEq, Eq, Structural)]
pub enum Error {
    Success,
    SystemBusy,
    InvalidCredential,
    GetParamInvalid,
    ToUserOrOpenIdInvalid,
    InvalidAppId,
    InvalidCode,
    TemplateIdInvalid,
    PagePathInvalid,
    NeedSubscribe,
    ApiFrequencyLimit,
    TemplateParamAmbiguous,
    HighRiskUser,
    /// The push platform answered with a body that is not the expected JSON.
    InvalidJsonFromWechat,
    /// The push platform could not be reached.
    NetworkToWechatErr,
    /// The identity provider's answer holds no union id.
    UnionIdNotFound,
    /// The session token is absent, does not match, or has expired.
    TokenExpired,
    /// The identity provider's answer holds no open id.
    OpenIdNotFound,
    /// The directory or the subscription index refused the operation.
    DatabaseErr,
    /// The client's request does not name existing entries.
    InvalidJsonRequest,
    /// Any code that is not one of the above.
    UnknownErr,
}

/// The numeric code of each error.
pub open spec fn code_of(e: Error) -> int {
    match e {
        Error::Success => 0,
        Error::SystemBusy => -1,
        Error::InvalidCredential => 40001,
        Error::GetParamInvalid => 40002,
        Error::ToUserOrOpenIdInvalid => 40003,
        Error::InvalidAppId => 40013,
        Error::InvalidCode => 40029,
        Error::TemplateIdInvalid => 40037,
        Error::PagePathInvalid => 41030,
        Error::NeedSubscribe => 43101,
        Error::ApiFrequencyLimit => 45011,
        Error::TemplateParamAmbiguous => 47003,
        Error::HighRiskUser => 40226,
        Error::InvalidJsonFromWechat => 101,
        Error::NetworkToWechatErr => 102,
        Error::UnionIdNotFound => 103,
        Error::TokenExpired => 104,
        Error::OpenIdNotFound => 105,
        Error::DatabaseErr => 106,
        Error::InvalidJsonRequest => 107,
        Error::UnknownErr => 999,
    }
}

/// The error that a numeric code stands for; unknown codes give `UnknownErr`.
pub open spec fn error_of(c: int) -> Error {
    if c == 0 {
        Error::Success
    } else if c == -1 {
        Error::SystemBusy
    } else if c == 40001 {
        Error::InvalidCredential
    } else if c == 40002 {
        Error::GetParamInvalid
    } else if c == 40003 {
        Error::ToUserOrOpenIdInvalid
    } else if c == 40013 {
        Error::InvalidAppId
    } else if c == 40029 {
        Error::InvalidCode
    } else if c == 40037 {
        Error::TemplateIdInvalid
    } else if c == 41030 {
        Error::PagePathInvalid
    } else if c == 43101 {
        Error::NeedSubscribe
    } else if c == 45011 {
        Error::ApiFrequencyLimit
    } else if c == 47003 {
        Error::TemplateParamAmbiguous
    } else if c == 40226 {
        Error::HighRiskUser
    } else if c == 101 {
        Error::InvalidJsonFromWechat
    } else if c == 102 {
        Error::NetworkToWechatErr
    } else if c == 103 {
        Error::UnionIdNotFound
    } else if c == 104 {
        Error::TokenExpired
    } else if c == 105 {
        Error::OpenIdNotFound
    } else if c == 106 {
        Error::DatabaseErr
    } else if c == 107 {
        Error::InvalidJsonRequest
    } else {
        Error::UnknownErr
    }
}

/// The human-readable message of each error.
pub open spec fn message_of(e: Error) -> Seq<char> {
    match e {
        Error::Success => "success"@,
        Error::SystemBusy => "wechat server busy"@,
        Error::InvalidCredential => "mismatched app secret"@,
        Error::GetParamInvalid => "get method provided invalid param"@,
        Error::ToUserOrOpenIdInvalid => "to user or open id invalid"@,
        Error::InvalidAppId => "invalid app id"@,
        Error::InvalidCode => "invalid code"@,
        Error::TemplateIdInvalid => "invalid template id"@,
        Error::PagePathInvalid => "invalid page path"@,
        Error::NeedSubscribe => "need subscribe"@,
        Error::ApiFrequencyLimit => "request too fast"@,
        Error::TemplateParamAmbiguous => "template param ambiguous"@,
        Error::HighRiskUser => "high risk user"@,
        Error::InvalidJsonFromWechat => "invalid json"@,
        Error::NetworkToWechatErr => "network to wechat error"@,
        Error::UnionIdNotFound => "union id not found"@,
        Error::TokenExpired => "access token expired"@,
        Error::OpenIdNotFound => "open id not found"@,
        Error::DatabaseErr => "database error"@,
        Error::InvalidJsonRequest => "invalid json request"@,
        Error::UnknownErr => "unknown error"@,
    }
}

impl Error {
    /// The numeric code sent to clients.
    pub fn code(&self) -> (r: i32)
        ensures
            r == code_of(*self),
    {
        match self {
            Error::Success => 0,
            Error::SystemBusy => -1,
            Error::InvalidCredential => 40001,
            Error::GetParamInvalid => 40002,
            Error::ToUserOrOpenIdInvalid => 40003,
            Error::InvalidAppId => 40013,
            Error::InvalidCode => 40029,
            Error::TemplateIdInvalid => 40037,
            Error::PagePathInvalid => 41030,
            Error::NeedSubscribe => 43101,
            Error::ApiFrequencyLimit => 45011,
            Error::TemplateParamAmbiguous => 47003,
            Error::HighRiskUser => 40226,
            Error::InvalidJsonFromWechat => 101,
            Error::NetworkToWechatErr => 102,
            Error::UnionIdNotFound => 103,
            Error::TokenExpired => 104,
            Error::OpenIdNotFound => 105,
            Error::DatabaseErr => 106,
            Error::InvalidJsonRequest => 107,
            Error::UnknownErr => 999,
        }
    }

    /// The message sent to clients beside the code.
    pub fn message(&self) -> (r: String)
        ensures
            r@ == message_of(*self),
    {
        let s: &str = match self {
            Error::Success => "success",
            Error::SystemBusy => "wechat server busy",
            Error::InvalidCredential => "mismatched app secret",
            Error::GetParamInvalid => "get method provided invalid param",
            Error::ToUserOrOpenIdInvalid => "to user or open id invalid",
            Error::InvalidAppId => "invalid app id",
            Error::InvalidCode => "invalid code",
            Error::TemplateIdInvalid => "invalid template id",
            Error::PagePathInvalid => "invalid page path",
            Error::NeedSubscribe => "need subscribe",
            Error::ApiFrequencyLimit => "request too fast",
            Error::TemplateParamAmbiguous => "template param ambiguous",
            Error::HighRiskUser => "high risk user",
            Error::InvalidJsonFromWechat => "invalid json",
            Error::NetworkToWechatErr => "network to wechat error",
            Error::UnionIdNotFound => "union id not found",
            Error::TokenExpired => "access token expired",
            Error::OpenIdNotFound => "open id not found",
            Error::DatabaseErr => "database error",
            Error::InvalidJsonRequest => "invalid json request",
            Error::UnknownErr => "unknown error",
        };
        s.to_owned()
    }
}

impl From<i32> for Error {
    fn from(c: i32) -> (r: Error) {
        if c == 0 {
            Error::Success
        } else if c == -1 {
            Error::SystemBusy
        } else if c == 40001 {
            Error::InvalidCredential
        } else if c == 40002 {
            Error::GetParamInvalid
        } else if c == 40003 {
            Error::ToUserOrOpenIdInvalid
        } else if c == 40013 {
            Error::InvalidAppId
        } else if c == 40029 {
            Error::InvalidCode
        } else if c == 40037 {
            Error::TemplateIdInvalid
        } else if c == 41030 {
            Error::PagePathInvalid
        } else if c == 43101 {
            Error::NeedSubscribe
        } else if c == 45011 {
            Error::ApiFrequencyLimit
        } else if c == 47003 {
            Error::TemplateParamAmbiguous
        } else if c == 40226 {
            Error::HighRiskUser
        } else if c == 101 {
            Error::InvalidJsonFromWechat
        } else if c == 102 {
            Error::NetworkToWechatErr
        } else if c == 103 {
            Error::UnionIdNotFound
        } else if c == 104 {
            Error::TokenExpired
        } else if c == 105 {
            Error::OpenIdNotFound
        } else if c == 106 {
            Error::DatabaseErr
        } else if c == 107 {
            Error::InvalidJsonRequest
        } else {
            Error::UnknownErr
        }
    }
}

impl vstd::std_specs::convert::FromSpecImpl<i32> for Error {
    open spec fn obeys_from_spec() -> bool {
        true
    }

    open spec fn from_spec(c: i32) -> Error {
        error_of(c as int)
    }
}

impl From<Error> for i32 {
    fn from(e: Error) -> (r: i32) {
        e.code()
    }
}

impl vstd::std_specs::convert::FromSpecImpl<Error> for i32 {
    open spec fn obeys_from_spec() -> bool {
        true
    }

    open spec fn from_spec(e: Error) -> i32 {
        code_of(e) as i32
    }
}

/// Every error but `UnknownErr` is read back from its own code.
pub proof fn lemma_code_round_trip(e: Error)
    requires
        e != Error::UnknownErr,
    ensures
        error_of(code_of(e)) == e,
{
}

} // verus!
