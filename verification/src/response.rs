//! The response classifier.
//!
//! A raw JSON body is held against two shapes: the identity lookup's
//! success shape and the provider's rejection shape.  The success shape is
//! tried first; only when its required fields are missing is the rejection
//! shape tried; a body matching neither is a decode failure with its own
//! distinct message, never a misclassification.  Extracting fields from
//! the opaque JSON value is trusted; the decision rule itself is verified
//! over the extracted fields.

use vstd::prelude::*;

use crate::error::{missing_field_text, AliyunRejection, OperationError};

verus! {

#[verifier::external_type_specification]
#[verifier::external_body]
pub struct ExValue(serde_json::Value);

/// The string field a JSON value holds under a name: what
/// `serde_json::Value::get` followed by `Value::as_str` reads.  The
/// lookup is a function of the value and the name alone, so naming it
/// lets the classifier's contract speak of the body it was given.
pub uninterp spec fn json_field_of(v: serde_json::Value, name: Seq<char>) -> Option<Seq<char>>;

/// Relies on `serde_json::Value::get` and `Value::as_str`: the string
/// under the name when the value is an object that holds the field as a
/// string, and nothing otherwise — the field named [`json_field_of`].
#[verifier::external_body]
fn json_string_field(v: &serde_json::Value, name: &str) -> (r: Option<String>)
    ensures
        match json_field_of(*v, name@) {
            Some(x) => r matches Some(s) && s@ == x,
            None => r is None,
        },
{
    v.get(name).and_then(|f| f.as_str()).map(|s| s.to_string())
}

/// The body satisfies the success shape: it holds all six required
/// fields of the identity lookup as strings.
pub open spec fn body_identity_complete(v: serde_json::Value) -> bool {
    &&& json_field_of(v, "IdentityType"@) is Some
    &&& json_field_of(v, "RequestId"@) is Some
    &&& json_field_of(v, "AccountId"@) is Some
    &&& json_field_of(v, "PrincipalId"@) is Some
    &&& json_field_of(v, "UserId"@) is Some
    &&& json_field_of(v, "Arn"@) is Some
}

/// The body satisfies the rejection shape: it holds `Code`, `HostId`
/// and `RequestId` as strings.
pub open spec fn body_rejection_complete(v: serde_json::Value) -> bool {
    &&& json_field_of(v, "Code"@) is Some
    &&& json_field_of(v, "HostId"@) is Some
    &&& json_field_of(v, "RequestId"@) is Some
}

/// The identity lookup's success payload; `role_id` is present only when
/// the caller is an assumed role.
#[derive(Debug)]
pub struct CallerIdentityBody {
    pub identity_type: String,
    pub request_id: String,
    pub account_id: String,
    pub principal_id: String,
    pub user_id: String,
    pub arn: String,
    pub role_id: Option<String>,
}

/// What a body offers toward the success shape: each field of the shape,
/// present or not.
pub struct CallerIdentityFields {
    pub identity_type: Option<String>,
    pub request_id: Option<String>,
    pub account_id: Option<String>,
    pub principal_id: Option<String>,
    pub user_id: Option<String>,
    pub arn: Option<String>,
    pub role_id: Option<String>,
}

/// What a body offers toward the rejection shape.
pub struct RejectionFields {
    pub code: Option<String>,
    pub host_id: Option<String>,
    pub message: Option<String>,
    pub request_id: Option<String>,
    pub recommend: Option<String>,
}

/// The success shape is satisfied: all six required fields are present.
pub open spec fn caller_identity_complete(f: CallerIdentityFields) -> bool {
    &&& f.identity_type is Some
    &&& f.request_id is Some
    &&& f.account_id is Some
    &&& f.principal_id is Some
    &&& f.user_id is Some
    &&& f.arn is Some
}

/// The rejection shape is satisfied: `code`, `host_id` and `request_id`
/// are present; `message` and `recommend` may be defaulted.
pub open spec fn rejection_complete(f: RejectionFields) -> bool {
    &&& f.code is Some
    &&& f.host_id is Some
    &&& f.request_id is Some
}

/// The message of the error produced when a body matches neither shape.
pub open spec fn neither_shape_text() -> Seq<char> {
    "(json decode error) the body matched neither the expected shape nor the rejection shape"@
}

/// Decodes the success shape: a body yields it exactly when all six
/// required fields are present, and the fields are carried unchanged.
pub fn decode_caller_identity(f: CallerIdentityFields) -> (r: Option<CallerIdentityBody>)
    ensures
        r is Some <==> caller_identity_complete(f),
        r matches Some(b) ==> {
            &&& f.identity_type == Some(b.identity_type)
            &&& f.request_id == Some(b.request_id)
            &&& f.account_id == Some(b.account_id)
            &&& f.principal_id == Some(b.principal_id)
            &&& f.user_id == Some(b.user_id)
            &&& f.arn == Some(b.arn)
            &&& f.role_id == b.role_id
        },
{
    match (f.identity_type, f.request_id, f.account_id, f.principal_id, f.user_id, f.arn) {
        (
            Some(identity_type),
            Some(request_id),
            Some(account_id),
            Some(principal_id),
            Some(user_id),
            Some(arn),
        ) => Some(
            CallerIdentityBody {
                identity_type,
                request_id,
                account_id,
                principal_id,
                user_id,
                arn,
                role_id: f.role_id,
            },
        ),
        _ => None,
    }
}

/// Decodes the rejection shape: a body yields it exactly when `code`,
/// `host_id` and `request_id` are present; a missing `message` or
/// `recommend` becomes the documented sentinel.
pub fn decode_rejection(f: RejectionFields) -> (r: Option<AliyunRejection>)
    ensures
        r is Some <==> rejection_complete(f),
        r matches Some(j) ==> {
            &&& f.code == Some(j.code)
            &&& f.host_id == Some(j.host_id)
            &&& f.request_id == Some(j.request_id)
            &&& j.message@ == match f.message {
                Some(m) => m@,
                None => missing_field_text(),
            }
            &&& j.recommend@ == match f.recommend {
                Some(m) => m@,
                None => missing_field_text(),
            }
        },
{
    match (f.code, f.host_id, f.request_id) {
        (Some(code), Some(host_id), Some(request_id)) => {
            let message = match f.message {
                Some(m) => m,
                None => crate::error::default_aliyun_rejection_field(),
            };
            let recommend = match f.recommend {
                Some(m) => m,
                None => crate::error::default_aliyun_rejection_field(),
            };
            Some(AliyunRejection { code, host_id, message, request_id, recommend })
        },
        _ => None,
    }
}

/// The classifier's decision rule over extracted fields: the success
/// shape wins when satisfied, else a satisfied rejection shape is a
/// `Rejected` error, else the distinct neither-shape decode failure.
pub fn classify_caller_identity(ci: CallerIdentityFields, rj: RejectionFields) -> (r: Result<
    CallerIdentityBody,
    OperationError,
>)
    ensures
        r is Ok <==> caller_identity_complete(ci),
        r matches Ok(b) ==> {
            &&& ci.identity_type == Some(b.identity_type)
            &&& ci.request_id == Some(b.request_id)
            &&& ci.account_id == Some(b.account_id)
            &&& ci.principal_id == Some(b.principal_id)
            &&& ci.user_id == Some(b.user_id)
            &&& ci.arn == Some(b.arn)
            &&& ci.role_id == b.role_id
        },
        !caller_identity_complete(ci) && rejection_complete(rj) ==> (r matches Err(e) && (e
            matches OperationError::Rejected(j) && {
            &&& rj.code == Some(j.code)
            &&& rj.host_id == Some(j.host_id)
            &&& rj.request_id == Some(j.request_id)
            &&& j.message@ == match rj.message {
                Some(m) => m@,
                None => missing_field_text(),
            }
            &&& j.recommend@ == match rj.recommend {
                Some(m) => m@,
                None => missing_field_text(),
            }
        })),
        !caller_identity_complete(ci) && !rejection_complete(rj) ==> (r matches Err(e) && (e
            matches OperationError::InternalError { message } && message@ == neither_shape_text())),
{
    match decode_caller_identity(ci) {
        Some(body) => Ok(body),
        None => match decode_rejection(rj) {
            Some(rejection) => Err(OperationError::Rejected(rejection)),
            None => Err(
                OperationError::InternalError {
                    message:
                        "(json decode error) the body matched neither the expected shape nor the rejection shape".to_owned(),
                },
            ),
        },
    }
}

/// Classifies a raw identity-lookup response body: a body holding the
/// six success fields yields them as the typed value, otherwise a body
/// holding the rejection fields yields a `Rejected` payload with the
/// documented sentinels for a missing `Message` or `Recommend`, and any
/// other body is the distinct neither-shape decode failure — never a
/// transport failure.
pub fn parse_json_value(value: serde_json::Value) -> (r: Result<
    CallerIdentityBody,
    OperationError,
>)
    ensures
        r is Ok <==> body_identity_complete(value),
        r matches Ok(b) ==> {
            &&& json_field_of(value, "IdentityType"@) == Some(b.identity_type@)
            &&& json_field_of(value, "RequestId"@) == Some(b.request_id@)
            &&& json_field_of(value, "AccountId"@) == Some(b.account_id@)
            &&& json_field_of(value, "PrincipalId"@) == Some(b.principal_id@)
            &&& json_field_of(value, "UserId"@) == Some(b.user_id@)
            &&& json_field_of(value, "Arn"@) == Some(b.arn@)
            &&& match json_field_of(value, "RoleId"@) {
                Some(x) => b.role_id matches Some(s) && s@ == x,
                None => b.role_id is None,
            }
        },
        !body_identity_complete(value) && body_rejection_complete(value) ==> (r matches Err(e) && (
        e matches OperationError::Rejected(j) && {
            &&& json_field_of(value, "Code"@) == Some(j.code@)
            &&& json_field_of(value, "HostId"@) == Some(j.host_id@)
            &&& json_field_of(value, "RequestId"@) == Some(j.request_id@)
            &&& j.message@ == match json_field_of(value, "Message"@) {
                Some(m) => m,
                None => missing_field_text(),
            }
            &&& j.recommend@ == match json_field_of(value, "Recommend"@) {
                Some(m) => m,
                None => missing_field_text(),
            }
        })),
        !body_identity_complete(value) && !body_rejection_complete(value) ==> (r matches Err(e)
            && (e matches OperationError::InternalError { message } && message@
            == neither_shape_text())),
{
    let ci = CallerIdentityFields {
        identity_type: json_string_field(&value, "IdentityType"),
        request_id: json_string_field(&value, "RequestId"),
        account_id: json_string_field(&value, "AccountId"),
        principal_id: json_string_field(&value, "PrincipalId"),
        user_id: json_string_field(&value, "UserId"),
        arn: json_string_field(&value, "Arn"),
        role_id: json_string_field(&value, "RoleId"),
    };
    let rj = RejectionFields {
        code: json_string_field(&value, "Code"),
        host_id: json_string_field(&value, "HostId"),
        message: json_string_field(&value, "Message"),
        request_id: json_string_field(&value, "RequestId"),
        recommend: json_string_field(&value, "Recommend"),
    };
    classify_caller_identity(ci, rj)
}

} // verus!
