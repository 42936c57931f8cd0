use vstd::prelude::*;

use crate::model::YesNo;

verus! {

/// The HTTP method of a call to the management server.
#[derive(Debug, Clone, Copy, PartialEq, Eq, Structural)]
pub enum HttpMethod {
    Get,
    Post,
    Put,
    Delete,
}

/// The resources the management server exposes.
#[derive(Debug, Clone, Copy, PartialEq, Eq, Structural)]
pub enum Resource {
    Config,
    Dict,
    DictItem,
    Group,
    Role,
    User,
    UserApp,
    UserRole,
    UserGroup,
    UserVipLevel,
}

/// Which route of a resource a call takes; the route table itself belongs to
/// the HTTP layer.
#[derive(Debug, Clone, PartialEq, Eq)]
pub enum ApiOp {
    List,
    Page,
    Insert,
    UpdateById,
    DeleteById(i32),
    LoadById(String),
    Batch,
    ResetPassword,
    SetStatus,
}

#[derive(Debug, Clone, PartialEq, Eq)]
pub struct ConfigListReq {
    pub app_id: String,
    pub var_name: String,
    pub status: Option<YesNo>,
}

#[derive(Debug, Clone, PartialEq, Eq)]
pub struct AddConfigReq {
    pub app_id: String,
    pub app_version: Option<String>,
    pub var_name: String,
    pub var_value: String,
    pub public: YesNo,
    pub remark: Option<String>,
    pub status: YesNo,
}

#[derive(Debug, Clone, PartialEq, Eq)]
pub struct UpdateConfigReq {
    pub id: i32,
    pub app_id: String,
    pub app_version: Option<String>,
    pub var_name: String,
    pub var_value: String,
    pub public: YesNo,
    pub remark: Option<String>,
    pub status: YesNo,
}

/// The request for adding a dictionary entry, and for updating one (keyed by
/// its code).
#[derive(Debug, Clone, PartialEq, Eq)]
pub struct DictReq {
    pub dict_code: String,
    pub dict_name: String,
    pub parent_code: Option<String>,
    pub public: YesNo,
    pub remark: Option<String>,
    pub status: YesNo,
}

#[derive(Debug, Clone, PartialEq, Eq)]
pub struct AddDictItemReq {
    pub dict_code: String,
    pub item_name: String,
    pub item_value: String,
    pub public: YesNo,
    pub remark: Option<String>,
    pub status: YesNo,
}

#[derive(Debug, Clone, PartialEq, Eq)]
pub struct UpdateDictItemReq {
    pub id: i32,
    pub item_name: String,
    pub item_value: String,
    pub public: YesNo,
    pub remark: Option<String>,
    pub status: YesNo,
}

/// The request for adding a user group or a role: its key, its name, a remark.
#[derive(Debug, Clone, PartialEq, Eq)]
pub struct NamedEntryReq {
    pub id: String,
    pub name: String,
    pub remark: Option<String>,
}

#[derive(Debug, Clone, PartialEq, Eq)]
pub struct UserListReq {
    pub username: String,
    pub nickname: String,
    pub status: Option<YesNo>,
}

/// One page of a paged query.
#[derive(Debug, Clone, PartialEq, Eq)]
pub struct PageReq {
    pub page: u64,
    pub size: u64,
    pub query: UserListReq,
}

/// Replaces the whole set of targets (apps, roles or groups) of a user.
#[derive(Debug, Clone, PartialEq, Eq)]
pub struct SetRelationReq {
    pub user_id: String,
    pub target_ids: Vec<String>,
}

#[derive(Debug, Clone, PartialEq, Eq)]
pub struct SaveVipLevelReq {
    pub user_id: String,
    pub vip_level: u8,
    pub months: u32,
    pub days: u64,
}

#[derive(Debug, Clone, PartialEq, Eq)]
pub struct SetStatusReq {
    pub user_id: String,
    pub status: YesNo,
}

/// A new account. `password` holds the password as typed: the transport
/// encodes it before it leaves.
#[derive(Debug, Clone, PartialEq, Eq)]
pub struct RegisterReq {
    pub username: String,
    pub password: String,
    pub nickname: String,
    pub avatar: u32,
}

/// What a call carries.
#[derive(Debug, Clone, PartialEq, Eq)]
pub enum RequestBody {
    Empty,
    ConfigList(ConfigListReq),
    AddConfig(AddConfigReq),
    UpdateConfig(UpdateConfigReq),
    Dict(DictReq),
    DictItemList(String),
    AddDictItem(AddDictItemReq),
    UpdateDictItem(UpdateDictItemReq),
    NamedEntry(NamedEntryReq),
    UserPage(PageReq),
    UserRef(String),
    SetRelation(SetRelationReq),
    SaveVipLevel(SaveVipLevelReq),
    SetStatus(SetStatusReq),
}

/// A call to the management server, handed to the HTTP layer to perform.
/// `binary` asks for the body in the binary encoding instead of JSON.
#[derive(Debug, Clone, PartialEq, Eq)]
pub struct ApiCall {
    pub method: HttpMethod,
    pub resource: Resource,
    pub op: ApiOp,
    pub body: RequestBody,
    pub binary: bool,
}

pub open spec fn call_spec(method: HttpMethod, resource: Resource, op: ApiOp, body: RequestBody) -> ApiCall {
    ApiCall { method, resource, op, body, binary: false }
}

fn call(method: HttpMethod, resource: Resource, op: ApiOp, body: RequestBody) -> (r: ApiCall)
    ensures
        r == call_spec(method, resource, op, body),
{
    ApiCall { method, resource, op, body, binary: false }
}

pub fn get_configs(req: ConfigListReq) -> (r: ApiCall)
    ensures
        r == call_spec(HttpMethod::Post, Resource::Config, ApiOp::List, RequestBody::ConfigList(req)),
{
    call(HttpMethod::Post, Resource::Config, ApiOp::List, RequestBody::ConfigList(req))
}

pub fn add_config(req: AddConfigReq) -> (r: ApiCall)
    ensures
        r == call_spec(HttpMethod::Post, Resource::Config, ApiOp::Insert, RequestBody::AddConfig(req)),
{
    call(HttpMethod::Post, Resource::Config, ApiOp::Insert, RequestBody::AddConfig(req))
}

pub fn update_config(req: UpdateConfigReq) -> (r: ApiCall)
    ensures
        r == call_spec(
            HttpMethod::Post,
            Resource::Config,
            ApiOp::UpdateById,
            RequestBody::UpdateConfig(req),
        ),
{
    call(HttpMethod::Post, Resource::Config, ApiOp::UpdateById, RequestBody::UpdateConfig(req))
}

pub fn delete_config(id: i32) -> (r: ApiCall)
    ensures
        r == call_spec(HttpMethod::Delete, Resource::Config, ApiOp::DeleteById(id), RequestBody::Empty),
{
    call(HttpMethod::Delete, Resource::Config, ApiOp::DeleteById(id), RequestBody::Empty)
}

/// The flat dictionary list; the caller builds the tree from the answer.
pub fn get_dicts() -> (r: ApiCall)
    ensures
        r == call_spec(HttpMethod::Get, Resource::Dict, ApiOp::List, RequestBody::Empty),
{
    call(HttpMethod::Get, Resource::Dict, ApiOp::List, RequestBody::Empty)
}

pub fn add_dict(req: DictReq) -> (r: ApiCall)
    ensures
        r == call_spec(HttpMethod::Post, Resource::Dict, ApiOp::Insert, RequestBody::Dict(req)),
{
    call(HttpMethod::Post, Resource::Dict, ApiOp::Insert, RequestBody::Dict(req))
}

pub fn update_dict(req: DictReq) -> (r: ApiCall)
    ensures
        r == call_spec(HttpMethod::Post, Resource::Dict, ApiOp::UpdateById, RequestBody::Dict(req)),
{
    call(HttpMethod::Post, Resource::Dict, ApiOp::UpdateById, RequestBody::Dict(req))
}

/// The items of the selected dictionary; with none selected there is nothing
/// to ask and the list is empty.
pub fn get_dict_items(dict_code: Option<String>) -> (r: Option<ApiCall>)
    ensures
        match dict_code {
            Some(code) => r == Some(
                call_spec(
                    HttpMethod::Get,
                    Resource::DictItem,
                    ApiOp::List,
                    RequestBody::DictItemList(code),
                ),
            ),
            None => r is None,
        },
{
    match dict_code {
        Some(code) => Some(
            call(HttpMethod::Get, Resource::DictItem, ApiOp::List, RequestBody::DictItemList(code)),
        ),
        None => None,
    }
}

pub fn add_dict_item(req: AddDictItemReq) -> (r: ApiCall)
    ensures
        r == call_spec(
            HttpMethod::Post,
            Resource::DictItem,
            ApiOp::Insert,
            RequestBody::AddDictItem(req),
        ),
{
    call(HttpMethod::Post, Resource::DictItem, ApiOp::Insert, RequestBody::AddDictItem(req))
}

pub fn update_dict_item(req: UpdateDictItemReq) -> (r: ApiCall)
    ensures
        r == call_spec(
            HttpMethod::Post,
            Resource::DictItem,
            ApiOp::UpdateById,
            RequestBody::UpdateDictItem(req),
        ),
{
    call(HttpMethod::Post, Resource::DictItem, ApiOp::UpdateById, RequestBody::UpdateDictItem(req))
}

pub fn get_groups() -> (r: ApiCall)
    ensures
        r == call_spec(HttpMethod::Get, Resource::Group, ApiOp::List, RequestBody::Empty),
{
    call(HttpMethod::Get, Resource::Group, ApiOp::List, RequestBody::Empty)
}

pub fn add_group(req: NamedEntryReq) -> (r: ApiCall)
    ensures
        r == call_spec(HttpMethod::Post, Resource::Group, ApiOp::Insert, RequestBody::NamedEntry(req)),
{
    call(HttpMethod::Post, Resource::Group, ApiOp::Insert, RequestBody::NamedEntry(req))
}

pub fn get_roles() -> (r: ApiCall)
    ensures
        r == call_spec(HttpMethod::Get, Resource::Role, ApiOp::List, RequestBody::Empty),
{
    call(HttpMethod::Get, Resource::Role, ApiOp::List, RequestBody::Empty)
}

pub fn add_role(req: NamedEntryReq) -> (r: ApiCall)
    ensures
        r == call_spec(HttpMethod::Post, Resource::Role, ApiOp::Insert, RequestBody::NamedEntry(req)),
{
    call(HttpMethod::Post, Resource::Role, ApiOp::Insert, RequestBody::NamedEntry(req))
}

pub fn get_paged_users(req: PageReq) -> (r: ApiCall)
    ensures
        r == call_spec(HttpMethod::Post, Resource::User, ApiOp::Page, RequestBody::UserPage(req)),
{
    call(HttpMethod::Post, Resource::User, ApiOp::Page, RequestBody::UserPage(req))
}

/// The call that lists what is attached to the selected user; with no user
/// selected there is nothing to ask and the list is empty.
fn user_list_call(resource: Resource, user_id: Option<String>) -> (r: Option<ApiCall>)
    ensures
        match user_id {
            Some(id) => r == Some(
                call_spec(HttpMethod::Get, resource, ApiOp::List, RequestBody::UserRef(id)),
            ),
            None => r is None,
        },
{
    match user_id {
        Some(id) => Some(call(HttpMethod::Get, resource, ApiOp::List, RequestBody::UserRef(id))),
        None => None,
    }
}

pub fn get_user_apps(user_id: Option<String>) -> (r: Option<ApiCall>)
    ensures
        match user_id {
            Some(id) => r == Some(
                call_spec(HttpMethod::Get, Resource::UserApp, ApiOp::List, RequestBody::UserRef(id)),
            ),
            None => r is None,
        },
{
    user_list_call(Resource::UserApp, user_id)
}

pub fn get_user_roles(user_id: Option<String>) -> (r: Option<ApiCall>)
    ensures
        match user_id {
            Some(id) => r == Some(
                call_spec(HttpMethod::Get, Resource::UserRole, ApiOp::List, RequestBody::UserRef(id)),
            ),
            None => r is None,
        },
{
    user_list_call(Resource::UserRole, user_id)
}

/// The groups of the selected user.
pub fn get_user_groups(user_id: Option<String>) -> (r: Option<ApiCall>)
    ensures
        match user_id {
            Some(id) => r == Some(
                call_spec(HttpMethod::Get, Resource::UserGroup, ApiOp::List, RequestBody::UserRef(id)),
            ),
            None => r is None,
        },
{
    user_list_call(Resource::UserGroup, user_id)
}

/// The VIP level of the selected user; with no user selected the caller shows
/// the default level without asking.
pub fn get_user_vip_level(user_id: Option<String>) -> (r: Option<ApiCall>)
    ensures
        match user_id {
            Some(id) => r == Some(
                call_spec(
                    HttpMethod::Get,
                    Resource::UserVipLevel,
                    ApiOp::LoadById(id),
                    RequestBody::UserRef(id),
                ),
            ),
            None => r is None,
        },
{
    match user_id {
        Some(id) => {
            let key = id.clone();
            Some(
                call(
                    HttpMethod::Get,
                    Resource::UserVipLevel,
                    ApiOp::LoadById(key),
                    RequestBody::UserRef(id),
                ),
            )
        },
        None => None,
    }
}

/// Saving a VIP level sends the body in the binary encoding.
pub fn save_user_vip_level(req: SaveVipLevelReq) -> (r: ApiCall)
    ensures
        r == (ApiCall {
            method: HttpMethod::Post,
            resource: Resource::UserVipLevel,
            op: ApiOp::Insert,
            body: RequestBody::SaveVipLevel(req),
            binary: true,
        }),
{
    ApiCall {
        method: HttpMethod::Post,
        resource: Resource::UserVipLevel,
        op: ApiOp::Insert,
        body: RequestBody::SaveVipLevel(req),
        binary: true,
    }
}

/// Replaces the apps, roles or groups of a user in one call.
pub fn set_relation(resource: Resource, req: SetRelationReq) -> (r: ApiCall)
    ensures
        r == call_spec(HttpMethod::Put, resource, ApiOp::Batch, RequestBody::SetRelation(req)),
{
    call(HttpMethod::Put, resource, ApiOp::Batch, RequestBody::SetRelation(req))
}

pub fn reset_password(user_id: String) -> (r: ApiCall)
    ensures
        r == call_spec(
            HttpMethod::Post,
            Resource::User,
            ApiOp::ResetPassword,
            RequestBody::UserRef(user_id),
        ),
{
    call(HttpMethod::Post, Resource::User, ApiOp::ResetPassword, RequestBody::UserRef(user_id))
}

pub fn set_user_status(req: SetStatusReq) -> (r: ApiCall)
    ensures
        r == call_spec(HttpMethod::Post, Resource::User, ApiOp::SetStatus, RequestBody::SetStatus(req)),
{
    call(HttpMethod::Post, Resource::User, ApiOp::SetStatus, RequestBody::SetStatus(req))
}

} // verus!
