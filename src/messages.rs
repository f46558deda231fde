use vstd::prelude::*;
use std::collections::HashMap;
use crate::error::{code_of, message_of, Error};
use crate::registry::SubscribeDetail;
use crate::session::AccessToken;

verus! {

/// A sign-in request from the mini-program: an authorization code for the
/// identity provider, or a session token to refresh.
#[derive(Clone, Debug)]
pub struct CodeInfo {
    pub code: String,
    pub open_id: String,
    pub access_token: String,
}

/// The answer to a sign-in request.
#[derive(Clone, Debug)]
pub struct CodeResult {
    pub err_code: i32,
    pub message: String,
    pub open_id: String,
    pub access_token: String,
}

impl CodeResult {
    /// The answer for a signed-in user and its token, or for an error.
    pub fn new(arg: Result<(String, AccessToken), Error>) -> (r: CodeResult)
        ensures
            arg matches Ok(p) ==> r.err_code == 0 && r.message@ == message_of(Error::Success)
                && r.open_id == p.0 && r.access_token == p.1.token,
            arg matches Err(e) ==> r.err_code == code_of(e) && r.message@ == message_of(e)
                && r.open_id@.len() == 0 && r.access_token@.len() == 0,
    {
        match arg {
            Ok((open_id, token)) => CodeResult {
                err_code: Error::Success.code(),
                message: Error::Success.message(),
                open_id,
                access_token: token.token,
            },
            Err(e) => CodeResult {
                err_code: e.code(),
                message: e.message(),
                open_id: String::new(),
                access_token: String::new(),
            },
        }
    }
}

/// A subscription batch from the mini-program, authenticated by the user's
/// session token.
#[derive(Clone, Debug)]
pub struct SubscribeInfo {
    pub open_id: String,
    pub access_token: String,
    pub info: Vec<SubscribeDetail>,
}

/// The answer to a subscription batch.
#[derive(Clone, Debug)]
pub struct SubscribeResult {
    pub err_code: i32,
    pub message: String,
}

impl SubscribeResult {
    /// Code 0 and an empty message on success; the error's code and message
    /// otherwise.
    pub fn new(arg: Result<(), Error>) -> (r: SubscribeResult)
        ensures
            arg is Ok ==> r.err_code == 0 && r.message@.len() == 0,
            arg matches Err(e) ==> r.err_code == code_of(e) && r.message@ == message_of(e),
    {
        match arg {
            Ok(_) => SubscribeResult { err_code: 0, message: String::new() },
            Err(e) => SubscribeResult { err_code: e.code(), message: e.message() },
        }
    }
}

/// A request for the user's subscription index.
#[derive(Clone, Debug)]
pub struct GetSubscribeInfo {
    pub access_token: String,
    pub open_id: String,
}

/// The user's subscription index: the department ids it subscribes to, by
/// university id.
#[derive(Clone, Debug)]
pub struct GetSubscribeResult {
    pub err_code: i32,
    pub message: String,
    pub info: HashMap<u32, Vec<u32>>,
}

impl GetSubscribeResult {
    /// Code 0, an empty message and the index on success; the error's code
    /// and message and an empty index otherwise.
    pub fn new(arg: Result<HashMap<u32, Vec<u32>>, Error>) -> (r: GetSubscribeResult)
        ensures
            arg matches Ok(m) ==> r.err_code == 0 && r.message@.len() == 0 && r.info == m,
            arg matches Err(e) ==> r.err_code == code_of(e) && r.message@ == message_of(e)
                && r.info@.len() == 0,
    {
        match arg {
            Ok(info) => GetSubscribeResult { err_code: 0, message: String::new(), info },
            Err(e) => GetSubscribeResult { err_code: e.code(), message: e.message(), info: HashMap::new() },
        }
    }
}

/// Every university, as id and display name.
#[derive(Clone, Debug)]
pub struct UniversityResult {
    pub err_code: i32,
    pub message: String,
    pub universities: HashMap<u32, String>,
}

impl UniversityResult {
    /// Code 0, the success message and the map on success; the error's code
    /// and message and an empty map otherwise.
    pub fn new(arg: Result<HashMap<u32, String>, Error>) -> (r: UniversityResult)
        ensures
            arg matches Ok(m) ==> r.err_code == 0 && r.message@ == message_of(Error::Success)
                && r.universities == m,
            arg matches Err(e) ==> r.err_code == code_of(e) && r.message@ == message_of(e)
                && r.universities@.len() == 0,
    {
        match arg {
            Ok(universities) => UniversityResult {
                err_code: Error::Success.code(),
                message: Error::Success.message(),
                universities,
            },
            Err(e) => UniversityResult { err_code: e.code(), message: e.message(), universities: HashMap::new() },
        }
    }
}

/// A request for the departments of one university.
#[derive(Clone, Debug)]
pub struct GetDepartmentInfo {
    pub university_code: u32,
}

/// The departments of one university, as id and display name.
#[derive(Clone, Debug)]
pub struct DepartmentResult {
    pub err_code: i32,
    pub message: String,
    pub departments: HashMap<u32, String>,
}

impl DepartmentResult {
    /// Code 0, the success message and the map on success; the error's code
    /// and message and an empty map otherwise.
    pub fn new(arg: Result<HashMap<u32, String>, Error>) -> (r: DepartmentResult)
        ensures
            arg matches Ok(m) ==> r.err_code == 0 && r.message@ == message_of(Error::Success)
                && r.departments == m,
            arg matches Err(e) ==> r.err_code == code_of(e) && r.message@ == message_of(e)
                && r.departments@.len() == 0,
    {
        match arg {
            Ok(departments) => DepartmentResult {
                err_code: Error::Success.code(),
                message: Error::Success.message(),
                departments,
            },
            Err(e) => DepartmentResult { err_code: e.code(), message: e.message(), departments: HashMap::new() },
        }
    }
}

/// A university and one of its departments, with their display names.
#[derive(Clone, Debug)]
pub struct UniversityContext {
    pub university_id: u32,
    pub university_name: String,
    pub department_id: u32,
    pub department_name: String,
}

/// The list of pictures shown on the mini-program's front page.
#[derive(Clone, Debug)]
pub struct WaterFall {
    pub err_code: i32,
    pub message: String,
    pub items: Vec<WaterFallItem>,
}

impl WaterFall {
    /// Code 0, an empty message and the items on success; the error's code
    /// and message and no item otherwise.
    pub fn new(arg: Result<Vec<WaterFallItem>, Error>) -> (r: WaterFall)
        ensures
            arg matches Ok(v) ==> r.err_code == 0 && r.message@.len() == 0 && r.items == v,
            arg matches Err(e) ==> r.err_code == code_of(e) && r.message@ == message_of(e)
                && r.items@.len() == 0,
    {
        match arg {
            Ok(items) => WaterFall { err_code: 0, message: String::new(), items },
            Err(e) => WaterFall { err_code: e.code(), message: e.message(), items: Vec::new() },
        }
    }
}

/// One picture of the front page.
#[derive(Clone, Debug)]
pub struct WaterFallItem {
    pub img_source_link: String,
    pub title: String,
    pub post_id: String,
}

impl WaterFallItem {
    pub fn new(img_source_link: String, title: String, post_id: String) -> (r: WaterFallItem)
        ensures
            r.img_source_link == img_source_link,
            r.title == title,
            r.post_id == post_id,
    {
        WaterFallItem { img_source_link, title, post_id }
    }
}

/// A post.
#[derive(Clone, Debug)]
pub struct PostContent {
    pub title: String,
    pub date: String,
    pub author: String,
    pub content: String,
}

/// A static resource.
#[derive(Clone, Debug)]
pub struct SourceContent {
    pub err_code: i32,
    pub message: String,
    pub content: Vec<u8>,
}

/// One value of a message template.
#[derive(Clone, Debug)]
pub struct Value {
    pub value: String,
}

/// The notification template: university, department and time.
#[derive(Clone, Debug)]
pub struct SubscribeTemplate {
    pub thing1: Value,
    pub thing2: Value,
    pub time3: Value,
}

impl SubscribeTemplate {
    pub fn new(university: String, department: String, date: String) -> (r: SubscribeTemplate)
        ensures
            r.thing1.value == university,
            r.thing2.value == department,
            r.time3.value == date,
    {
        SubscribeTemplate {
            thing1: Value { value: university },
            thing2: Value { value: department },
            time3: Value { value: date },
        }
    }
}

/// A test template: a title and a date.
#[derive(Clone, Debug)]
pub struct TestSendMessageTemplate {
    pub thing2: Value,
    pub date5: Value,
}

impl TestSendMessageTemplate {
    pub fn new(title: String, date: String) -> (r: TestSendMessageTemplate)
        ensures
            r.thing2.value == title,
            r.date5.value == date,
    {
        TestSendMessageTemplate { thing2: Value { value: title }, date5: Value { value: date } }
    }
}

/// The body of a push call.
#[derive(Clone, Debug)]
pub struct SendMessage {
    pub template_id: String,
    /// The recipient's open id.
    pub touser: String,
    pub data: SubscribeTemplate,
    pub miniprogram_state: String,
    pub lang: String,
}

/// The body of a push call with the test template.
#[derive(Clone, Debug)]
pub struct TestSendMessage {
    pub template_id: String,
    /// The recipient's open id.
    pub touser: String,
    pub data: TestSendMessageTemplate,
    pub miniprogram_state: String,
    pub lang: String,
}

/// The push platform's answer.
#[derive(Clone, Debug)]
pub struct SendMessageResult {
    pub errcode: i32,
    pub errmsg: String,
}

/// The template id of the notification.
pub const NOTIFY_TEMPLATE_ID: &'static str = "TMFuXpbbjg21tEN1c4D_kHGtsNuRccqo7ft3aBC2J6s";

impl SendMessage {
    /// The notification to `touser` with the template values `data`.
    pub fn notification(touser: String, data: SubscribeTemplate) -> (r: SendMessage)
        ensures
            r.template_id@ == NOTIFY_TEMPLATE_ID@,
            r.touser == touser,
            r.data == data,
            r.miniprogram_state@ == "developer"@,
            r.lang@ == "zh_CN"@,
    {
        SendMessage {
            template_id: NOTIFY_TEMPLATE_ID.to_owned(),
            touser,
            data,
            miniprogram_state: "developer".to_owned(),
            lang: "zh_CN".to_owned(),
        }
    }
}

} // verus!
