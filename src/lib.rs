//! Subscription and notification core of the Prospect backend: a two-level
//! directory of universities and their departments with per-department
//! subscriber sets, the per-user subscription index, the notification
//! dispatcher with bounded retries, and the credential caches.

mod error;
mod registry;
mod dispatch;
mod session;
mod credential;
mod messages;
mod service;

pub use error::Error;
pub use dispatch::{
    classify_response, AttemptOutcome, DeliveryStatus, Dispatch, DispatchReport, FailureReason,
    PermanentReason, ATTEMPT_BUDGET,
};
pub use registry::{Registry, RegistryError, SubscribeDetail, OPER_SUBSCRIBE, OPER_UNSUBSCRIBE};
pub use session::{AccessToken, SessionStore, NONCE_LEN, SESSION_TTL_SECS};
pub use credential::{CacheDecision, CredentialCache};
pub use messages::{
    CodeInfo, CodeResult, DepartmentResult, GetDepartmentInfo, GetSubscribeInfo, GetSubscribeResult,
    PostContent, SendMessage, SendMessageResult, SourceContent, SubscribeInfo, SubscribeResult,
    SubscribeTemplate, TestSendMessage, TestSendMessageTemplate, UniversityContext,
    UniversityResult, Value, WaterFall, WaterFallItem, NOTIFY_TEMPLATE_ID,
};
pub use service::{
    group_by_university, handle_code_refresh, handle_code_refresh_at, handle_code_session,
    handle_code_session_at, handle_get_subscribe, handle_get_subscribe_at, handle_subscribe,
    handle_subscribe_at, registry_error,
};
