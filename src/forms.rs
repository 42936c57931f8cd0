use vstd::prelude::*;

use crate::api::{
    AddConfigReq, AddDictItemReq, ConfigListReq, DictReq, NamedEntryReq, PageReq, RegisterReq,
    SaveVipLevelReq, SetRelationReq, UpdateConfigReq, UpdateDictItemReq, UserListReq,
};
use crate::model::{clone_opt_string, opt_view, ConfigItem, DictItem, DictNode, YesNo};
use crate::text::{
    check_text, is_strong_password, strong_password, text_check, trim_of, trim_to_option, trimmed,
    trimmed_option, FieldError,
};

verus! {

/// The form fields that a check can refuse.
#[derive(Debug, Clone, Copy, PartialEq, Eq, Structural)]
pub enum FieldName {
    VarName,
    VarValue,
    Code,
    Name,
    ParentCode,
    Value,
    Remark,
    Username,
    Nickname,
    Password,
}

/// A field refused before any request was made: shown as a hint beside the
/// field, never as an operation error.
#[derive(Debug, Clone, Copy, PartialEq, Eq, Structural)]
pub struct FormError {
    pub field: FieldName,
    pub error: FieldError,
}

/// The app a new configuration entry belongs to unless another is chosen.
pub open spec fn default_app() -> Seq<char> {
    "TowerServer"@
}

pub fn default_app_id() -> (r: String)
    ensures
        r@ == default_app(),
{
    "TowerServer".to_owned()
}

/// Longest name, value or code a form accepts.
pub const MAX_SHORT: usize = 50;

/// Longest remark a form accepts.
pub const MAX_REMARK: usize = 500;

/// Shortest group or role key and name.
pub const MIN_ENTRY_ID: usize = 6;

pub open spec fn field_check(
    field: FieldName,
    s: Seq<char>,
    required: bool,
    min: nat,
    max: Option<nat>,
) -> Result<(), FormError> {
    match text_check(s, required, min, max) {
        Ok(()) => Ok(()),
        Err(error) => Err(FormError { field, error }),
    }
}

/// The first refusal of two checks made in turn.
pub open spec fn and_then(a: Result<(), FormError>, b: Result<(), FormError>) -> Result<
    (),
    FormError,
> {
    if a is Err {
        a
    } else {
        b
    }
}

pub open spec fn required_short(field: FieldName, s: Seq<char>) -> Result<(), FormError> {
    field_check(field, s, true, 1, Some(MAX_SHORT as nat))
}

pub open spec fn optional_short(field: FieldName, s: Seq<char>) -> Result<(), FormError> {
    field_check(field, s, false, 0, Some(MAX_SHORT as nat))
}

pub open spec fn remark_check(s: Seq<char>) -> Result<(), FormError> {
    field_check(FieldName::Remark, s, false, 0, Some(MAX_REMARK as nat))
}

fn check_field(field: FieldName, s: &str, required: bool, min: usize, max: Option<usize>) -> (r:
    Result<(), FormError>)
    requires
        min < usize::MAX,
        max is Some ==> max->0 < usize::MAX,
    ensures
        r == field_check(
            field,
            s@,
            required,
            min as nat,
            match max {
                Some(m) => Some(m as nat),
                None => None,
            },
        ),
        required && s@.len() == 0 ==> r == Err::<(), FormError>(
            FormError { field, error: FieldError::Required },
        ),
{
    match check_text(s, required, min, max) {
        Ok(()) => Ok(()),
        Err(error) => Err(FormError { field, error }),
    }
}

fn check_required_short(field: FieldName, s: &str) -> (r: Result<(), FormError>)
    ensures
        r == required_short(field, s@),
        s@.len() == 0 ==> r == Err::<(), FormError>(
            FormError { field, error: FieldError::Required },
        ),
{
    check_field(field, s, true, 1, Some(MAX_SHORT))
}

fn check_optional_short(field: FieldName, s: &str) -> (r: Result<(), FormError>)
    ensures
        r == optional_short(field, s@),
{
    check_field(field, s, false, 0, Some(MAX_SHORT))
}

fn check_remark(s: &str) -> (r: Result<(), FormError>)
    ensures
        r == remark_check(s@),
{
    check_field(FieldName::Remark, s, false, 0, Some(MAX_REMARK))
}

// ---------------------------------------------------------------------------
// Configuration entries
// ---------------------------------------------------------------------------

/// The fields of the dialog that adds or edits a configuration entry.
#[derive(Debug, Clone, PartialEq, Eq)]
pub struct ConfigForm {
    pub app_id: String,
    pub app_version: Option<String>,
    pub var_name: String,
    pub var_value: String,
    pub public: YesNo,
    pub remark: String,
    pub status: YesNo,
}

pub open spec fn config_checks(f: ConfigForm) -> Result<(), FormError> {
    and_then(
        required_short(FieldName::VarName, f.var_name@),
        and_then(required_short(FieldName::VarValue, f.var_value@), remark_check(f.remark@)),
    )
}

fn check_config(f: &ConfigForm) -> (r: Result<(), FormError>)
    ensures
        r == config_checks(*f),
        f.var_name@.len() == 0 ==> r == Err::<(), FormError>(
            FormError { field: FieldName::VarName, error: FieldError::Required },
        ),
        f.var_value@.len() == 0 ==> r is Err,
{
    let a = check_required_short(FieldName::VarName, &f.var_name);
    if a.is_err() {
        return a;
    }
    let b = check_required_short(FieldName::VarValue, &f.var_value);
    if b.is_err() {
        return b;
    }
    check_remark(&f.remark)
}

/// What a request made from the form carries in its shared fields.
pub open spec fn config_req_matches(
    f: ConfigForm,
    app_id: String,
    app_version: Option<String>,
    var_name: String,
    var_value: String,
    public: YesNo,
    remark: Option<String>,
    status: YesNo,
) -> bool {
    &&& app_id@ == f.app_id@
    &&& opt_view(app_version) == opt_view(f.app_version)
    &&& var_name@ == f.var_name@
    &&& var_value@ == f.var_value@
    &&& public == f.public
    &&& opt_view(remark) == trimmed_option(f.remark@)
    &&& status == f.status
}

/// The text a form field starts from: the stored value, or empty.
pub open spec fn or_empty(o: Option<String>) -> Seq<char> {
    match o {
        Some(s) => s@,
        None => Seq::empty(),
    }
}

fn string_or_empty(o: &Option<String>) -> (r: String)
    ensures
        r@ == or_empty(*o),
{
    match o {
        Some(s) => s.clone(),
        None => String::new(),
    }
}

impl ConfigForm {
    /// A blank form for a new entry, or one filled from `clone` to add a copy.
    pub fn new(clone: &Option<ConfigItem>) -> (r: ConfigForm)
        ensures
            match clone {
                None => {
                    &&& r.app_id@ == default_app()
                    &&& r.app_version is None
                    &&& r.var_name@.len() == 0
                    &&& r.var_value@.len() == 0
                    &&& r.public == YesNo::Yes
                    &&& r.remark@.len() == 0
                    &&& r.status == YesNo::Yes
                },
                Some(c) => r.filled_from(*c),
            },
    {
        match clone {
            None => ConfigForm {
                app_id: default_app_id(),
                app_version: None,
                var_name: String::new(),
                var_value: String::new(),
                public: YesNo::Yes,
                remark: String::new(),
                status: YesNo::Yes,
            },
            Some(c) => ConfigForm::edit(c),
        }
    }

    /// The form filled from an existing entry, to edit it.
    pub fn edit(c: &ConfigItem) -> (r: ConfigForm)
        ensures
            r.filled_from(*c),
    {
        ConfigForm {
            app_id: c.app_id.clone(),
            app_version: clone_opt_string(&c.app_version),
            var_name: c.var_name.clone(),
            var_value: c.var_value.clone(),
            public: c.public,
            remark: string_or_empty(&c.remark),
            status: c.status,
        }
    }

    pub open spec fn filled_from(self, c: ConfigItem) -> bool {
        &&& self.app_id@ == c.app_id@
        &&& opt_view(self.app_version) == opt_view(c.app_version)
        &&& self.var_name@ == c.var_name@
        &&& self.var_value@ == c.var_value@
        &&& self.public == c.public
        &&& self.remark@ == or_empty(c.remark)
        &&& self.status == c.status
    }

    /// The request that adds the entry, or the first field refused.
    pub fn to_add_req(&self) -> (r: Result<AddConfigReq, FormError>)
        ensures
            match r {
                Ok(q) => config_checks(*self) is Ok && config_req_matches(
                    *self,
                    q.app_id,
                    q.app_version,
                    q.var_name,
                    q.var_value,
                    q.public,
                    q.remark,
                    q.status,
                ),
                Err(e) => config_checks(*self) == Err::<(), FormError>(e),
            },
            self.var_name@.len() == 0 ==> (r matches Err(e) && e == (FormError {
                field: FieldName::VarName,
                error: FieldError::Required,
            })),
            self.var_value@.len() == 0 ==> r is Err,
    {
        match check_config(self) {
            Err(e) => Err(e),
            Ok(()) => Ok(
                AddConfigReq {
                    app_id: self.app_id.clone(),
                    app_version: clone_opt_string(&self.app_version),
                    var_name: self.var_name.clone(),
                    var_value: self.var_value.clone(),
                    public: self.public,
                    remark: trim_to_option(self.remark.as_str()),
                    status: self.status,
                },
            ),
        }
    }

    /// The request that updates entry `id`, or the first field refused.
    pub fn to_update_req(&self, id: i32) -> (r: Result<UpdateConfigReq, FormError>)
        ensures
            match r {
                Ok(q) => config_checks(*self) is Ok && q.id == id && config_req_matches(
                    *self,
                    q.app_id,
                    q.app_version,
                    q.var_name,
                    q.var_value,
                    q.public,
                    q.remark,
                    q.status,
                ),
                Err(e) => config_checks(*self) == Err::<(), FormError>(e),
            },
            self.var_name@.len() == 0 ==> (r matches Err(e) && e == (FormError {
                field: FieldName::VarName,
                error: FieldError::Required,
            })),
            self.var_value@.len() == 0 ==> r is Err,
    {
        match check_config(self) {
            Err(e) => Err(e),
            Ok(()) => Ok(
                UpdateConfigReq {
                    id,
                    app_id: self.app_id.clone(),
                    app_version: clone_opt_string(&self.app_version),
                    var_name: self.var_name.clone(),
                    var_value: self.var_value.clone(),
                    public: self.public,
                    remark: trim_to_option(self.remark.as_str()),
                    status: self.status,
                },
            ),
        }
    }
}

/// The filter above the configuration table.
#[derive(Debug, Clone, PartialEq, Eq)]
pub struct ConfigFormData {
    pub app_id: String,
    pub var_name: String,
    pub status: Option<YesNo>,
}

impl ConfigFormData {
    pub open spec fn is_default(self) -> bool {
        &&& self.app_id@ == default_app()
        &&& self.var_name@.len() == 0
        &&& self.status is None
    }

    pub fn new() -> (r: ConfigFormData)
        ensures
            r.is_default(),
    {
        ConfigFormData { app_id: default_app_id(), var_name: String::new(), status: None }
    }

    /// Back to the default filter; the table is not reloaded by this.
    pub fn reset(&mut self)
        ensures
            final(self).is_default(),
    {
        *self = ConfigFormData::new();
    }

    pub fn to_req(&self) -> (r: ConfigListReq)
        ensures
            r.app_id@ == self.app_id@,
            r.var_name@ == self.var_name@,
            r.status == self.status,
    {
        ConfigListReq {
            app_id: self.app_id.clone(),
            var_name: self.var_name.clone(),
            status: self.status,
        }
    }
}

// ---------------------------------------------------------------------------
// Dictionary entries and items
// ---------------------------------------------------------------------------

/// The fields of the dialog that adds or edits a dictionary entry.
#[derive(Debug, Clone, PartialEq, Eq)]
pub struct DictForm {
    pub dict_code: String,
    pub dict_name: String,
    pub parent_code: String,
    pub public: YesNo,
    pub remark: String,
    pub status: YesNo,
}

pub open spec fn dict_checks(f: DictForm) -> Result<(), FormError> {
    and_then(
        required_short(FieldName::Code, f.dict_code@),
        and_then(
            required_short(FieldName::Name, f.dict_name@),
            and_then(optional_short(FieldName::ParentCode, f.parent_code@), remark_check(f.remark@)),
        ),
    )
}

pub open spec fn dict_req_matches(f: DictForm, q: DictReq) -> bool {
    &&& q.dict_code@ == f.dict_code@
    &&& q.dict_name@ == f.dict_name@
    &&& opt_view(q.parent_code) == trimmed_option(f.parent_code@)
    &&& q.public == f.public
    &&& opt_view(q.remark) == trimmed_option(f.remark@)
    &&& q.status == f.status
}

impl DictForm {
    /// A blank entry under `parent_code`, or at the top level.
    pub fn new(parent_code: &Option<String>) -> (r: DictForm)
        ensures
            r.dict_code@.len() == 0,
            r.dict_name@.len() == 0,
            r.parent_code@ == or_empty(*parent_code),
            r.public == YesNo::Yes,
            r.remark@.len() == 0,
            r.status == YesNo::Yes,
    {
        DictForm {
            dict_code: String::new(),
            dict_name: String::new(),
            parent_code: string_or_empty(parent_code),
            public: YesNo::Yes,
            remark: String::new(),
            status: YesNo::Yes,
        }
    }

    /// The form filled from an existing entry, to edit it.
    pub fn edit(d: &DictNode) -> (r: DictForm)
        ensures
            r.dict_code@ == d.code@,
            r.dict_name@ == d.name@,
            r.parent_code@ == or_empty(d.parent_code),
            r.public == d.public,
            r.remark@ == or_empty(d.remark),
            r.status == d.status,
    {
        DictForm {
            dict_code: d.code.clone(),
            dict_name: d.name.clone(),
            parent_code: string_or_empty(&d.parent_code),
            public: d.public,
            remark: string_or_empty(&d.remark),
            status: d.status,
        }
    }

    /// The request that adds or updates the entry, or the first field refused.
    pub fn to_req(&self) -> (r: Result<DictReq, FormError>)
        ensures
            match r {
                Ok(q) => dict_checks(*self) is Ok && dict_req_matches(*self, q),
                Err(e) => dict_checks(*self) == Err::<(), FormError>(e),
            },
            self.dict_code@.len() == 0 ==> (r matches Err(e) && e == (FormError {
                field: FieldName::Code,
                error: FieldError::Required,
            })),
            self.dict_name@.len() == 0 ==> r is Err,
    {
        let a = check_required_short(FieldName::Code, &self.dict_code);
        if let Err(e) = a {
            return Err(e);
        }
        let b = check_required_short(FieldName::Name, &self.dict_name);
        if let Err(e) = b {
            return Err(e);
        }
        let c = check_optional_short(FieldName::ParentCode, &self.parent_code);
        if let Err(e) = c {
            return Err(e);
        }
        let d = check_remark(&self.remark);
        if let Err(e) = d {
            return Err(e);
        }
        Ok(
            DictReq {
                dict_code: self.dict_code.clone(),
                dict_name: self.dict_name.clone(),
                parent_code: trim_to_option(self.parent_code.as_str()),
                public: self.public,
                remark: trim_to_option(self.remark.as_str()),
                status: self.status,
            },
        )
    }
}

/// The fields of the dialog that adds or edits an item of a dictionary.
#[derive(Debug, Clone, PartialEq, Eq)]
pub struct ItemForm {
    pub dict_code: String,
    pub item_name: String,
    pub item_value: String,
    pub public: YesNo,
    pub remark: String,
    pub status: YesNo,
}

pub open spec fn item_checks(f: ItemForm) -> Result<(), FormError> {
    and_then(
        required_short(FieldName::Name, f.item_name@),
        and_then(required_short(FieldName::Value, f.item_value@), remark_check(f.remark@)),
    )
}

impl ItemForm {
    /// A blank item of the dictionary `dict_code`.
    pub fn new(dict_code: &String) -> (r: ItemForm)
        ensures
            r.dict_code@ == dict_code@,
            r.item_name@.len() == 0,
            r.item_value@.len() == 0,
            r.public == YesNo::Yes,
            r.remark@.len() == 0,
            r.status == YesNo::Yes,
    {
        ItemForm {
            dict_code: dict_code.clone(),
            item_name: String::new(),
            item_value: String::new(),
            public: YesNo::Yes,
            remark: String::new(),
            status: YesNo::Yes,
        }
    }

    /// The form filled from an existing item, to edit it.
    pub fn edit(i: &DictItem) -> (r: ItemForm)
        ensures
            r.dict_code@ == i.dict_code@,
            r.item_name@ == i.item_name@,
            r.item_value@ == i.item_value@,
            r.public == i.public,
            r.remark@ == or_empty(i.remark),
            r.status == i.status,
    {
        ItemForm {
            dict_code: i.dict_code.clone(),
            item_name: i.item_name.clone(),
            item_value: i.item_value.clone(),
            public: i.public,
            remark: string_or_empty(&i.remark),
            status: i.status,
        }
    }

    fn check(&self) -> (r: Result<(), FormError>)
        ensures
            r == item_checks(*self),
            self.item_name@.len() == 0 ==> r == Err::<(), FormError>(
                FormError { field: FieldName::Name, error: FieldError::Required },
            ),
            self.item_value@.len() == 0 ==> r is Err,
    {
        let a = check_required_short(FieldName::Name, &self.item_name);
        if a.is_err() {
            return a;
        }
        let b = check_required_short(FieldName::Value, &self.item_value);
        if b.is_err() {
            return b;
        }
        check_remark(&self.remark)
    }

    /// The request that adds the item, or the first field refused.
    pub fn to_add_req(&self) -> (r: Result<AddDictItemReq, FormError>)
        ensures
            match r {
                Ok(q) => {
                    &&& item_checks(*self) is Ok
                    &&& q.dict_code@ == self.dict_code@
                    &&& q.item_name@ == self.item_name@
                    &&& q.item_value@ == self.item_value@
                    &&& q.public == self.public
                    &&& opt_view(q.remark) == trimmed_option(self.remark@)
                    &&& q.status == self.status
                },
                Err(e) => item_checks(*self) == Err::<(), FormError>(e),
            },
            self.item_name@.len() == 0 ==> (r matches Err(e) && e == (FormError {
                field: FieldName::Name,
                error: FieldError::Required,
            })),
            self.item_value@.len() == 0 ==> r is Err,
    {
        match self.check() {
            Err(e) => Err(e),
            Ok(()) => Ok(
                AddDictItemReq {
                    dict_code: self.dict_code.clone(),
                    item_name: self.item_name.clone(),
                    item_value: self.item_value.clone(),
                    public: self.public,
                    remark: trim_to_option(self.remark.as_str()),
                    status: self.status,
                },
            ),
        }
    }

    /// The request that updates item `id`, or the first field refused.
    pub fn to_update_req(&self, id: i32) -> (r: Result<UpdateDictItemReq, FormError>)
        ensures
            match r {
                Ok(q) => {
                    &&& item_checks(*self) is Ok
                    &&& q.id == id
                    &&& q.item_name@ == self.item_name@
                    &&& q.item_value@ == self.item_value@
                    &&& q.public == self.public
                    &&& opt_view(q.remark) == trimmed_option(self.remark@)
                    &&& q.status == self.status
                },
                Err(e) => item_checks(*self) == Err::<(), FormError>(e),
            },
            self.item_name@.len() == 0 ==> (r matches Err(e) && e == (FormError {
                field: FieldName::Name,
                error: FieldError::Required,
            })),
            self.item_value@.len() == 0 ==> r is Err,
    {
        match self.check() {
            Err(e) => Err(e),
            Ok(()) => Ok(
                UpdateDictItemReq {
                    id,
                    item_name: self.item_name.clone(),
                    item_value: self.item_value.clone(),
                    public: self.public,
                    remark: trim_to_option(self.remark.as_str()),
                    status: self.status,
                },
            ),
        }
    }
}

// ---------------------------------------------------------------------------
// Users, groups, roles
// ---------------------------------------------------------------------------

/// The fields of the dialog that adds a user group or a role.
#[derive(Debug, Clone, PartialEq, Eq)]
pub struct EntryForm {
    pub id: String,
    pub name: String,
    pub remark: String,
}

pub open spec fn entry_checks(f: EntryForm) -> Result<(), FormError> {
    and_then(
        field_check(FieldName::Code, f.id@, true, MIN_ENTRY_ID as nat, None),
        and_then(
            field_check(FieldName::Name, f.name@, true, MIN_ENTRY_ID as nat, None),
            remark_check(f.remark@),
        ),
    )
}

impl EntryForm {
    pub fn new() -> (r: EntryForm)
        ensures
            r.id@.len() == 0,
            r.name@.len() == 0,
            r.remark@.len() == 0,
    {
        EntryForm { id: String::new(), name: String::new(), remark: String::new() }
    }

    /// The request that adds the group or role, or the first field refused.
    pub fn to_req(&self) -> (r: Result<NamedEntryReq, FormError>)
        ensures
            match r {
                Ok(q) => {
                    &&& entry_checks(*self) is Ok
                    &&& q.id@ == self.id@
                    &&& q.name@ == self.name@
                    &&& opt_view(q.remark) == trimmed_option(self.remark@)
                },
                Err(e) => entry_checks(*self) == Err::<(), FormError>(e),
            },
            self.id@.len() == 0 ==> (r matches Err(e) && e == (FormError {
                field: FieldName::Code,
                error: FieldError::Required,
            })),
            self.name@.len() == 0 ==> r is Err,
    {
        let a = check_field(FieldName::Code, &self.id, true, MIN_ENTRY_ID, None);
        if let Err(e) = a {
            return Err(e);
        }
        let b = check_field(FieldName::Name, &self.name, true, MIN_ENTRY_ID, None);
        if let Err(e) = b {
            return Err(e);
        }
        let c = check_remark(&self.remark);
        if let Err(e) = c {
            return Err(e);
        }
        Ok(
            NamedEntryReq {
                id: self.id.clone(),
                name: self.name.clone(),
                remark: trim_to_option(self.remark.as_str()),
            },
        )
    }
}

/// The filter above the user table.
#[derive(Debug, Clone, PartialEq, Eq)]
pub struct UserQuery {
    pub username: String,
    pub nickname: String,
    pub status: Option<YesNo>,
}

impl UserQuery {
    pub fn new() -> (r: UserQuery)
        ensures
            r.username@.len() == 0,
            r.nickname@.len() == 0,
            r.status is None,
    {
        UserQuery { username: String::new(), nickname: String::new(), status: None }
    }

    /// The query of one page: the names trimmed, the status as chosen.
    pub fn to_req(&self, page: u64, size: u64) -> (r: PageReq)
        ensures
            r.page == page,
            r.size == size,
            r.query.username@ == trim_of(self.username@),
            r.query.nickname@ == trim_of(self.nickname@),
            r.query.status == self.status,
    {
        PageReq {
            page,
            size,
            query: UserListReq {
                username: trimmed(self.username.as_str()),
                nickname: trimmed(self.nickname.as_str()),
                status: self.status,
            },
        }
    }
}

/// The level chosen in the upgrade dialog, and how long it lasts.
#[derive(Debug, Clone, Copy, PartialEq, Eq, Structural)]
pub struct VipLevelForm {
    pub vip_level: u8,
    pub months: u32,
    pub days: u64,
}

impl VipLevelForm {
    pub fn new() -> (r: VipLevelForm)
        ensures
            r == (VipLevelForm { vip_level: 0, months: 0, days: 0 }),
    {
        VipLevelForm { vip_level: 0, months: 0, days: 0 }
    }

    /// The request for the selected user; none while no user is selected.
    pub fn to_req(&self, user_id: &Option<String>) -> (r: Option<SaveVipLevelReq>)
        ensures
            match user_id {
                None => r is None,
                Some(u) => r matches Some(q) && q.user_id@ == u@ && q.vip_level == self.vip_level
                    && q.months == self.months && q.days == self.days,
            },
    {
        match user_id {
            None => None,
            Some(u) => Some(
                SaveVipLevelReq {
                    user_id: u.clone(),
                    vip_level: self.vip_level,
                    months: self.months,
                    days: self.days,
                },
            ),
        }
    }
}

/// The request that replaces the apps, roles or groups of the selected user
/// with `checked`; none while no user is selected.
pub fn relation_req(user_id: &Option<String>, checked: Vec<String>) -> (r: Option<SetRelationReq>)
    ensures
        match user_id {
            None => r is None,
            Some(u) => r matches Some(q) && q.user_id@ == u@ && q.target_ids == checked,
        },
{
    match user_id {
        None => None,
        Some(u) => Some(SetRelationReq { user_id: u.clone(), target_ids: checked }),
    }
}

pub open spec fn views(s: Seq<String>) -> Seq<Seq<char>> {
    s.map_values(|x: String| x@)
}

/// For each target, whether the user already has it: the ticks a relation
/// pane starts from.
pub fn mark_checked(all: &Vec<String>, of_user: &Vec<String>) -> (r: Vec<bool>)
    ensures
        r.len() == all.len(),
        forall|i: int| 0 <= i < all.len() ==> #[trigger] r@[i] == views(of_user@).contains(all@[i]@),
{
    let mut r: Vec<bool> = Vec::new();
    let mut i: usize = 0;
    while i < all.len()
        invariant
            i <= all.len(),
            r.len() == i,
            forall|k: int| 0 <= k < i ==> #[trigger] r@[k] == views(of_user@).contains(all@[k]@),
        decreases all.len() - i,
    {
        let mut found = false;
        let mut j: usize = 0;
        while j < of_user.len()
            invariant
                i < all.len(),
                j <= of_user.len(),
                found == exists|k: int| 0 <= k < j && (#[trigger] of_user@[k])@ == all@[i as int]@,
            decreases of_user.len() - j,
        {
            if of_user[j] == all[i] {
                found = true;
            }
            j = j + 1;
        }
        proof {
            if found {
                let k = choose|k: int| 0 <= k < of_user.len() && (#[trigger] of_user@[k])@
                    == all@[i as int]@;
                assert(views(of_user@)[k] == all@[i as int]@);
            } else {
                assert forall|k: int| 0 <= k < views(of_user@).len() implies #[trigger] views(
                    of_user@,
                )[k] != all@[i as int]@ by {
                    assert(views(of_user@)[k] == of_user@[k]@);
                }
            }
        }
        r.push(found);
        i = i + 1;
    }
    r
}

/// The targets of the first `k` positions whose tick is set, in order; a
/// position without a tick counts as not ticked.
pub open spec fn ticked_upto(all: Seq<Seq<char>>, ticks: Seq<bool>, k: nat) -> Seq<Seq<char>>
    decreases k,
{
    if k == 0 {
        Seq::empty()
    } else {
        let prev = ticked_upto(all, ticks, (k - 1) as nat);
        if k - 1 < ticks.len() && ticks[k - 1] {
            prev.push(all[k - 1])
        } else {
            prev
        }
    }
}

pub open spec fn ticked(all: Seq<Seq<char>>, ticks: Seq<bool>) -> Seq<Seq<char>> {
    ticked_upto(all, ticks, all.len())
}

/// The ids of the ticked targets, in the order of `all`.
pub fn checked_ids(all: &Vec<String>, ticks: &Vec<bool>) -> (r: Vec<String>)
    ensures
        views(r@) == ticked(views(all@), ticks@),
{
    let mut r: Vec<String> = Vec::new();
    let mut i: usize = 0;
    while i < all.len()
        invariant
            i <= all.len(),
            views(r@) == ticked_upto(views(all@), ticks@, i as nat),
        decreases all.len() - i,
    {
        if i < ticks.len() && ticks[i] {
            let id = all[i].clone();
            proof {
                assert(views(r@.push(id)) =~= views(r@).push(id@));
            }
            r.push(id);
        }
        i = i + 1;
    }
    r
}

/// The ticks of a relation pane (the apps, roles or groups of a user): one
/// per target, started from what the user has, changed one at a time.
#[derive(Debug, Clone, PartialEq, Eq)]
pub struct RelationPicker {
    pub targets: Vec<String>,
    pub ticks: Vec<bool>,
}

impl RelationPicker {
    /// All of `targets`, ticked where the user already has them.
    pub fn new(targets: Vec<String>, of_user: &Vec<String>) -> (r: RelationPicker)
        ensures
            r.targets == targets,
            r.ticks.len() == targets.len(),
            forall|i: int|
                0 <= i < targets.len() ==> #[trigger] r.ticks@[i] == views(of_user@).contains(
                    targets@[i]@,
                ),
    {
        let ticks = mark_checked(&targets, of_user);
        RelationPicker { targets, ticks }
    }

    /// Flips the tick at position `i`; a position past the end changes nothing.
    pub fn toggle(&mut self, i: usize)
        ensures
            final(self).targets == old(self).targets,
            final(self).ticks@ == if i < old(self).ticks.len() {
                old(self).ticks@.update(i as int, !old(self).ticks@[i as int])
            } else {
                old(self).ticks@
            },
    {
        if i < self.ticks.len() {
            let t = self.ticks[i];
            self.ticks.set(i, !t);
        }
    }

    /// The ids a save sends: the ticked targets, in order.
    pub fn checked_ids(&self) -> (r: Vec<String>)
        ensures
            views(r@) == ticked(views(self.targets@), self.ticks@),
    {
        checked_ids(&self.targets, &self.ticks)
    }

    /// The request that saves the ticks for the selected user; none while no
    /// user is selected.
    pub fn save_req(&self, user_id: &Option<String>) -> (r: Option<SetRelationReq>)
        ensures
            match user_id {
                None => r is None,
                Some(u) => r matches Some(q) && q.user_id@ == u@ && views(q.target_ids@)
                    == ticked(views(self.targets@), self.ticks@),
            },
    {
        relation_req(user_id, self.checked_ids())
    }
}

proof fn lemma_ticked_contains(all: Seq<Seq<char>>, ticks: Seq<bool>, k: nat, x: Seq<char>)
    requires
        k <= all.len(),
    ensures
        ticked_upto(all, ticks, k).contains(x) <==> exists|i: int|
            0 <= i < k && i < ticks.len() && ticks[i] && #[trigger] all[i] == x,
    decreases k,
{
    if k > 0 {
        lemma_ticked_contains(all, ticks, (k - 1) as nat, x);
        let prev = ticked_upto(all, ticks, (k - 1) as nat);
        let cur = ticked_upto(all, ticks, k);
        if k - 1 < ticks.len() && ticks[k - 1] {
            assert(cur == prev.push(all[k - 1]));
            if cur.contains(x) {
                let j = choose|j: int| 0 <= j < cur.len() && cur[j] == x;
                if j < prev.len() {
                    assert(prev[j] == x);
                }
            }
            if prev.contains(x) {
                let j = choose|j: int| 0 <= j < prev.len() && prev[j] == x;
                assert(cur[j] == x);
            }
            if all[k - 1] == x {
                assert(cur[cur.len() - 1] == x);
            }
        }
    }
}

/// Saving a relation pane that was not changed sends exactly the targets the
/// user already has: an id goes out if and only if it is one of the targets
/// and one of the user's.
pub proof fn law_unchanged_save(p: RelationPicker, of_user: Seq<Seq<char>>)
    requires
        p.ticks.len() == p.targets.len(),
        forall|i: int|
            0 <= i < p.targets.len() ==> #[trigger] p.ticks@[i] == of_user.contains(p.targets@[i]@),
    ensures
        forall|x: Seq<char>|
            #[trigger] ticked(views(p.targets@), p.ticks@).contains(x) <==> (views(
                p.targets@,
            ).contains(x) && of_user.contains(x)),
{
    let all = views(p.targets@);
    assert forall|x: Seq<char>|
        #[trigger] ticked(all, p.ticks@).contains(x) <==> (all.contains(x) && of_user.contains(
            x,
        )) by {
        lemma_ticked_contains(all, p.ticks@, all.len(), x);
        if all.contains(x) && of_user.contains(x) {
            let i = choose|i: int| 0 <= i < all.len() && all[i] == x;
            assert(all[i] == p.targets@[i]@);
        }
        if ticked(all, p.ticks@).contains(x) {
            let i = choose|i: int|
                0 <= i < all.len() && i < p.ticks@.len() && p.ticks@[i] && #[trigger] all[i] == x;
            assert(all[i] == p.targets@[i]@);
        }
    }
}

/// Whether the two passwords of the registration form may be sent: filled in
/// and equal.
pub fn passwords_match(password: &String, password2: &String) -> (r: bool)
    ensures
        r == (password@.len() > 0 && password@ == password2@),
{
    !password.as_str().is_empty() && *password == *password2
}

// ---------------------------------------------------------------------------
// Registration
// ---------------------------------------------------------------------------

/// Why the registration form was not sent: two passwords that differ (or
/// none at all) show as a warning; any other refusal is a field hint.
#[derive(Debug, Clone, Copy, PartialEq, Eq, Structural)]
pub enum RegisterRefusal {
    PasswordMismatch,
    Field(FormError),
}

/// The fields of the registration dialog.
#[derive(Debug, Clone, PartialEq, Eq)]
pub struct RegisterForm {
    pub username: String,
    pub nickname: String,
    pub password: String,
    pub password2: String,
}

pub open spec fn register_field(field: FieldName, s: Seq<char>, min: nat, max: nat) -> Result<
    (),
    RegisterRefusal,
> {
    match field_check(field, s, true, min, Some(max)) {
        Ok(()) => Ok(()),
        Err(e) => Err(RegisterRefusal::Field(e)),
    }
}

/// The checks of the registration form, in turn: the two passwords filled in
/// and equal; a user name of 6 to 16 characters; a nickname of 3 to 12; a
/// password of 6 to 16 holding a digit, a letter and a symbol.
pub open spec fn register_check(
    username: Seq<char>,
    nickname: Seq<char>,
    password: Seq<char>,
    password2: Seq<char>,
) -> Result<(), RegisterRefusal> {
    if !(password.len() > 0 && password == password2) {
        Err(RegisterRefusal::PasswordMismatch)
    } else if register_field(FieldName::Username, username, 6, 16) is Err {
        register_field(FieldName::Username, username, 6, 16)
    } else if register_field(FieldName::Nickname, nickname, 3, 12) is Err {
        register_field(FieldName::Nickname, nickname, 3, 12)
    } else if register_field(FieldName::Password, password, 6, 16) is Err {
        register_field(FieldName::Password, password, 6, 16)
    } else if !strong_password(password) {
        Err(RegisterRefusal::Field(FormError { field: FieldName::Password, error: FieldError::Weak }))
    } else {
        Ok(())
    }
}

fn check_register_field(field: FieldName, s: &str, min: usize, max: usize) -> (r: Result<
    (),
    RegisterRefusal,
>)
    requires
        min < usize::MAX,
        max < usize::MAX,
    ensures
        r == register_field(field, s@, min as nat, max as nat),
{
    match check_field(field, s, true, min, Some(max)) {
        Ok(()) => Ok(()),
        Err(e) => Err(RegisterRefusal::Field(e)),
    }
}

impl RegisterForm {
    pub fn new() -> (r: RegisterForm)
        ensures
            r.username@.len() == 0,
            r.nickname@.len() == 0,
            r.password@.len() == 0,
            r.password2@.len() == 0,
    {
        RegisterForm {
            username: String::new(),
            nickname: String::new(),
            password: String::new(),
            password2: String::new(),
        }
    }

    /// Whether the form may be sent, or why not.
    pub fn check(&self) -> (r: Result<(), RegisterRefusal>)
        ensures
            r == register_check(self.username@, self.nickname@, self.password@, self.password2@),
            !(self.password@.len() > 0 && self.password@ == self.password2@) ==> r == Err::<
                (),
                RegisterRefusal,
            >(RegisterRefusal::PasswordMismatch),
    {
        if !passwords_match(&self.password, &self.password2) {
            return Err(RegisterRefusal::PasswordMismatch);
        }
        let a = check_register_field(FieldName::Username, &self.username, 6, 16);
        if a.is_err() {
            return a;
        }
        let b = check_register_field(FieldName::Nickname, &self.nickname, 3, 12);
        if b.is_err() {
            return b;
        }
        let c = check_register_field(FieldName::Password, &self.password, 6, 16);
        if c.is_err() {
            return c;
        }
        if !is_strong_password(self.password.as_str()) {
            return Err(
                RegisterRefusal::Field(
                    FormError { field: FieldName::Password, error: FieldError::Weak },
                ),
            );
        }
        Ok(())
    }

    /// The registration request, with the default avatar, or why the form
    /// may not be sent.
    pub fn to_req(&self) -> (r: Result<RegisterReq, RegisterRefusal>)
        ensures
            match r {
                Ok(q) => {
                    &&& register_check(
                        self.username@,
                        self.nickname@,
                        self.password@,
                        self.password2@,
                    ) is Ok
                    &&& q.username@ == self.username@
                    &&& q.nickname@ == self.nickname@
                    &&& q.password@ == self.password@
                    &&& q.avatar == 0
                },
                Err(e) => register_check(
                    self.username@,
                    self.nickname@,
                    self.password@,
                    self.password2@,
                ) == Err::<(), RegisterRefusal>(e),
            },
    {
        match self.check() {
            Err(e) => Err(e),
            Ok(()) => Ok(
                RegisterReq {
                    username: self.username.clone(),
                    password: self.password.clone(),
                    nickname: self.nickname.clone(),
                    avatar: 0,
                },
            ),
        }
    }
}

} // verus!
