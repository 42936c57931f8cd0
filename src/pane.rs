use vstd::prelude::*;

use crate::api::{call_spec, delete_config, ApiCall, ApiOp, HttpMethod, RequestBody, Resource};
use crate::forms::{FormError, RegisterRefusal};
use crate::model::YesNo;

verus! {

#[derive(Debug, Clone, Copy, PartialEq, Eq, Structural)]
pub enum FeedbackKind {
    Success,
    Warning,
    Error,
}

/// The one message a pane shows after an operation. `id` tells a message
/// apart from the one that replaces it, so that the timer of an old message
/// does not clear a new one.
#[derive(Debug, Clone, PartialEq, Eq)]
pub struct Feedback {
    pub kind: FeedbackKind,
    pub text: String,
    pub id: u64,
}

/// What a pane shows of its list: nothing fetched yet, the rows of the last
/// fetch that came back, or the text of its failure.
#[derive(Debug, Clone, PartialEq, Eq)]
pub enum Cache<T> {
    Empty,
    Ready(Vec<T>),
    Failed(String),
}

/// The operations that change something on the server.
#[derive(Debug, Clone, Copy, PartialEq, Eq, Structural)]
pub enum Mutation {
    AddConfig,
    UpdateConfig,
    DeleteConfig,
    AddDict,
    UpdateDict,
    AddDictItem,
    UpdateDictItem,
    AddGroup,
    AddRole,
    SetRelation,
    SaveVipLevel,
    ResetPassword,
    EnableUser,
    DisableUser,
    Register,
}

/// The confirmation shown when an operation succeeds.
pub open spec fn success_text(m: Mutation) -> Seq<char> {
    match m {
        Mutation::AddConfig => "新增配置成功。"@,
        Mutation::UpdateConfig => "修改配置成功。"@,
        Mutation::DeleteConfig => "删除成功"@,
        Mutation::AddDict => "新增字典成功。"@,
        Mutation::UpdateDict => "修改字典成功。"@,
        Mutation::AddDictItem => "新增字典项成功。"@,
        Mutation::UpdateDictItem => "修改字典项成功。"@,
        Mutation::AddGroup => "保存用户组成功。"@,
        Mutation::AddRole => "保存角色成功。"@,
        Mutation::SetRelation => "设置成功。"@,
        Mutation::SaveVipLevel => "升级成功。"@,
        Mutation::ResetPassword => "重置密码成功。"@,
        Mutation::EnableUser => "启用成功。"@,
        Mutation::DisableUser => "禁用成功。"@,
        Mutation::Register => "注册成功"@,
    }
}

/// The warning shown when the two passwords of the registration form differ.
pub open spec fn mismatch_text() -> Seq<char> {
    "两次输入的密码不一致"@
}

/// Whether a success reloads the pane's list. Deleting a configuration entry
/// does not; saving the apps, roles or groups of a user, resetting a password
/// and registering leave the list as it is too.
pub open spec fn refetches(m: Mutation) -> bool {
    match m {
        Mutation::DeleteConfig | Mutation::SetRelation | Mutation::ResetPassword
        | Mutation::Register => false,
        _ => true,
    }
}

impl Mutation {
    pub fn success_message(&self) -> (r: String)
        ensures
            r@ == success_text(*self),
    {
        let s = match self {
            Mutation::AddConfig => "新增配置成功。",
            Mutation::UpdateConfig => "修改配置成功。",
            Mutation::DeleteConfig => "删除成功",
            Mutation::AddDict => "新增字典成功。",
            Mutation::UpdateDict => "修改字典成功。",
            Mutation::AddDictItem => "新增字典项成功。",
            Mutation::UpdateDictItem => "修改字典项成功。",
            Mutation::AddGroup => "保存用户组成功。",
            Mutation::AddRole => "保存角色成功。",
            Mutation::SetRelation => "设置成功。",
            Mutation::SaveVipLevel => "升级成功。",
            Mutation::ResetPassword => "重置密码成功。",
            Mutation::EnableUser => "启用成功。",
            Mutation::DisableUser => "禁用成功。",
            Mutation::Register => "注册成功",
        };
        s.to_owned()
    }

    pub fn refetches(&self) -> (r: bool)
        ensures
            r == refetches(*self),
    {
        match self {
            Mutation::DeleteConfig | Mutation::SetRelation | Mutation::ResetPassword
            | Mutation::Register => false,
            _ => true,
        }
    }
}

pub fn mismatch_message() -> (r: String)
    ensures
        r@ == mismatch_text(),
{
    "两次输入的密码不一致".to_owned()
}

/// The counter after `x`; it starts again from zero after the largest value.
pub open spec fn next_id(x: u64) -> u64 {
    if x == u64::MAX {
        0
    } else {
        (x + 1) as u64
    }
}

fn next(x: u64) -> (r: u64)
    ensures
        r == next_id(x),
{
    if x == u64::MAX {
        0
    } else {
        x + 1
    }
}

/// The state of one pane: its list, whether a fetch is out, the add or edit
/// dialog, the hint of a refused field, and the operation message.
#[derive(Debug)]
pub struct Pane<T> {
    pub rows: Cache<T>,
    pub loading: bool,
    /// The ticket of the last fetch sent; only its answer is taken.
    pub latest_load: u64,
    pub dialog_open: bool,
    pub hint: Option<FormError>,
    pub feedback: Option<Feedback>,
    pub feedback_seq: u64,
}

impl<T> Pane<T> {
    pub fn new() -> (r: Pane<T>)
        ensures
            r.rows is Empty,
            !r.loading,
            r.latest_load == 0,
            !r.dialog_open,
            r.hint is None,
            r.feedback is None,
            r.feedback_seq == 0,
    {
        Pane {
            rows: Cache::Empty,
            loading: false,
            latest_load: 0,
            dialog_open: false,
            hint: None,
            feedback: None,
            feedback_seq: 0,
        }
    }

    /// Sends a fetch of the list: returns its ticket. The rows shown so far
    /// stay until the answer comes.
    pub fn begin_load(&mut self) -> (ticket: u64)
        ensures
            ticket == next_id(old(self).latest_load),
            final(self).latest_load == ticket,
            final(self).loading,
            final(self).rows == old(self).rows,
            final(self).dialog_open == old(self).dialog_open,
            final(self).hint == old(self).hint,
            final(self).feedback == old(self).feedback,
            final(self).feedback_seq == old(self).feedback_seq,
    {
        self.latest_load = next(self.latest_load);
        self.loading = true;
        self.latest_load
    }

    /// Takes the answer to the fetch with `ticket`. The answer to a fetch
    /// that a later one has replaced is dropped; the result tells which.
    pub fn finish_load(&mut self, ticket: u64, outcome: Result<Vec<T>, String>) -> (taken: bool)
        ensures
            taken == (ticket == old(self).latest_load),
            taken ==> {
                &&& !final(self).loading
                &&& match outcome {
                    Ok(v) => final(self).rows == Cache::Ready(v),
                    Err(e) => final(self).rows == Cache::<T>::Failed(e),
                }
            },
            !taken ==> final(self).rows == old(self).rows && final(self).loading == old(
                self,
            ).loading,
            final(self).latest_load == old(self).latest_load,
            final(self).dialog_open == old(self).dialog_open,
            final(self).hint == old(self).hint,
            final(self).feedback == old(self).feedback,
            final(self).feedback_seq == old(self).feedback_seq,
    {
        if ticket != self.latest_load {
            return false;
        }
        self.loading = false;
        self.rows = match outcome {
            Ok(v) => Cache::Ready(v),
            Err(e) => Cache::Failed(e),
        };
        true
    }

    /// Opens the add or edit dialog with no hint showing.
    pub fn open_dialog(&mut self)
        ensures
            final(self).dialog_open,
            final(self).hint is None,
            final(self).rows == old(self).rows,
            final(self).loading == old(self).loading,
            final(self).latest_load == old(self).latest_load,
            final(self).feedback == old(self).feedback,
            final(self).feedback_seq == old(self).feedback_seq,
    {
        self.dialog_open = true;
        self.hint = None;
    }

    pub fn close_dialog(&mut self)
        ensures
            !final(self).dialog_open,
            final(self).hint is None,
            final(self).rows == old(self).rows,
            final(self).loading == old(self).loading,
            final(self).latest_load == old(self).latest_load,
            final(self).feedback == old(self).feedback,
            final(self).feedback_seq == old(self).feedback_seq,
    {
        self.dialog_open = false;
        self.hint = None;
    }

    /// Submits a form that has been checked: a refused field becomes the
    /// hint and nothing is sent; otherwise the call comes back to be sent.
    /// The operation message is not touched either way.
    pub fn submit(&mut self, checked: Result<ApiCall, FormError>) -> (r: Option<ApiCall>)
        ensures
            match checked {
                Ok(c) => r == Some(c) && final(self).hint is None,
                Err(e) => r is None && final(self).hint == Some(e),
            },
            final(self).rows == old(self).rows,
            final(self).loading == old(self).loading,
            final(self).latest_load == old(self).latest_load,
            final(self).dialog_open == old(self).dialog_open,
            final(self).feedback == old(self).feedback,
            final(self).feedback_seq == old(self).feedback_seq,
    {
        match checked {
            Ok(c) => {
                self.hint = None;
                Some(c)
            },
            Err(e) => {
                self.hint = Some(e);
                None
            },
        }
    }

    /// Submits the registration form once checked: two passwords that differ
    /// show the mismatch warning; another refused field becomes the hint;
    /// either way nothing is sent. Returns whether to send the form.
    pub fn submit_register(&mut self, checked: Result<(), RegisterRefusal>) -> (send: bool)
        ensures
            send == (checked is Ok),
            match checked {
                Ok(()) => {
                    &&& final(self).hint is None
                    &&& final(self).feedback == old(self).feedback
                    &&& final(self).feedback_seq == old(self).feedback_seq
                },
                Err(RegisterRefusal::PasswordMismatch) => {
                    &&& final(self).hint == old(self).hint
                    &&& final(self).feedback_seq == next_id(old(self).feedback_seq)
                    &&& final(self).feedback matches Some(f) && f.kind == FeedbackKind::Warning
                        && f.text@ == mismatch_text() && f.id == final(self).feedback_seq
                },
                Err(RegisterRefusal::Field(e)) => {
                    &&& final(self).hint == Some(e)
                    &&& final(self).feedback == old(self).feedback
                    &&& final(self).feedback_seq == old(self).feedback_seq
                },
            },
            final(self).rows == old(self).rows,
            final(self).loading == old(self).loading,
            final(self).latest_load == old(self).latest_load,
            final(self).dialog_open == old(self).dialog_open,
    {
        match checked {
            Ok(()) => {
                self.hint = None;
                true
            },
            Err(RegisterRefusal::PasswordMismatch) => {
                self.show(FeedbackKind::Warning, mismatch_message());
                false
            },
            Err(RegisterRefusal::Field(e)) => {
                self.hint = Some(e);
                false
            },
        }
    }

    fn show(&mut self, kind: FeedbackKind, text: String)
        ensures
            final(self).feedback_seq == next_id(old(self).feedback_seq),
            final(self).feedback == Some(
                Feedback { kind, text, id: final(self).feedback_seq },
            ),
            final(self).rows == old(self).rows,
            final(self).loading == old(self).loading,
            final(self).latest_load == old(self).latest_load,
            final(self).dialog_open == old(self).dialog_open,
            final(self).hint == old(self).hint,
    {
        self.feedback_seq = next(self.feedback_seq);
        self.feedback = Some(Feedback { kind, text, id: self.feedback_seq });
    }

    /// Takes the answer to an operation. On success the dialog closes, the
    /// confirmation of `m` shows, and the list is fetched again where `m`
    /// asks for it: the ticket of that fetch comes back. On failure the
    /// failure's text shows as an error, and the list and the dialog stay as
    /// they were.
    pub fn finish_mutation(&mut self, m: Mutation, outcome: Result<(), String>) -> (r: Option<u64>)
        ensures
            final(self).feedback_seq == next_id(old(self).feedback_seq),
            final(self).rows == old(self).rows,
            final(self).hint == old(self).hint,
            match outcome {
                Ok(()) => {
                    &&& !final(self).dialog_open
                    &&& final(self).feedback matches Some(f) && f.kind == FeedbackKind::Success
                        && f.text@ == success_text(m) && f.id == final(self).feedback_seq
                    &&& if refetches(m) {
                        &&& r == Some(next_id(old(self).latest_load))
                        &&& final(self).latest_load == next_id(old(self).latest_load)
                        &&& final(self).loading
                    } else {
                        &&& r is None
                        &&& final(self).latest_load == old(self).latest_load
                        &&& final(self).loading == old(self).loading
                    }
                },
                Err(e) => {
                    &&& r is None
                    &&& final(self).feedback == Some(
                        Feedback { kind: FeedbackKind::Error, text: e, id: final(self).feedback_seq },
                    )
                    &&& final(self).dialog_open == old(self).dialog_open
                    &&& final(self).latest_load == old(self).latest_load
                    &&& final(self).loading == old(self).loading
                },
            },
    {
        match outcome {
            Ok(()) => {
                self.dialog_open = false;
                self.show(FeedbackKind::Success, m.success_message());
                if m.refetches() {
                    Some(self.begin_load())
                } else {
                    None
                }
            },
            Err(e) => {
                self.show(FeedbackKind::Error, e);
                None
            },
        }
    }

    /// The display time of message `id` is over: it goes, unless another
    /// message has replaced it.
    pub fn expire_feedback(&mut self, id: u64)
        ensures
            match old(self).feedback {
                Some(f) => if f.id == id {
                    final(self).feedback is None
                } else {
                    final(self).feedback == old(self).feedback
                },
                None => final(self).feedback is None,
            },
            final(self).feedback_seq == old(self).feedback_seq,
            final(self).rows == old(self).rows,
            final(self).loading == old(self).loading,
            final(self).latest_load == old(self).latest_load,
            final(self).dialog_open == old(self).dialog_open,
            final(self).hint == old(self).hint,
    {
        let clear = match &self.feedback {
            Some(f) => f.id == id,
            None => false,
        };
        if clear {
            self.feedback = None;
        }
    }
}

/// What the status button of a user row does: an enabled user is disabled,
/// a disabled one enabled. Returns the operation and the status to send.
pub fn status_action(current: YesNo) -> (r: (Mutation, YesNo))
    ensures
        current == YesNo::Yes ==> r == (Mutation::DisableUser, YesNo::No),
        current == YesNo::No ==> r == (Mutation::EnableUser, YesNo::Yes),
{
    match current {
        YesNo::Yes => (Mutation::DisableUser, YesNo::No),
        YesNo::No => (Mutation::EnableUser, YesNo::Yes),
    }
}

/// The caption of the status button of a user row.
pub fn status_button_label(current: YesNo) -> (r: String)
    ensures
        current == YesNo::Yes ==> r@ == "禁用"@,
        current == YesNo::No ==> r@ == "启用"@,
{
    match current {
        YesNo::Yes => "禁用".to_owned(),
        YesNo::No => "启用".to_owned(),
    }
}

/// Deleting a configuration entry happens only on an explicit yes in the
/// confirmation prompt: the call comes back only then.
pub fn confirm_delete(confirmed: bool, id: i32) -> (r: Option<ApiCall>)
    ensures
        confirmed ==> r == Some(
            call_spec(HttpMethod::Delete, Resource::Config, ApiOp::DeleteById(id), RequestBody::Empty),
        ),
        !confirmed ==> r is None,
{
    if confirmed {
        Some(delete_config(id))
    } else {
        None
    }
}

} // verus!
