use tower_management::api::{add_config, ApiOp, HttpMethod, Resource};
use tower_management::forms::{ConfigForm, FieldName, FormError, RegisterForm, RegisterRefusal};
use tower_management::model::{ConfigItem, YesNo};
use tower_management::pane::{
    status_action, status_button_label, Cache, FeedbackKind, Mutation, Pane,
};
use tower_management::text::FieldError;

fn row(id: i32) -> ConfigItem {
    ConfigItem {
        id,
        app_id: "TowerServer".to_string(),
        app_version: None,
        var_name: format!("v{}", id),
        var_value: "1".to_string(),
        public: YesNo::Yes,
        remark: None,
        status: YesNo::Yes,
        created: 0,
        updated: None,
    }
}

fn loaded_pane() -> Pane<ConfigItem> {
    let mut pane = Pane::new();
    let t = pane.begin_load();
    assert!(pane.finish_load(t, Ok(vec![row(1), row(2)])));
    pane
}

#[test]
fn submit_create_with_empty_name_sends_nothing_and_hints() {
    let mut pane = loaded_pane();
    pane.open_dialog();
    let form = ConfigForm::new(&None);
    let checked = form.to_add_req().map(add_config);
    let sent = pane.submit(checked);
    assert!(sent.is_none());
    assert_eq!(
        pane.hint,
        Some(FormError { field: FieldName::VarName, error: FieldError::Required })
    );
    assert!(pane.feedback.is_none());
    assert!(pane.dialog_open);
}

#[test]
fn submit_create_success_posts_reloads_once_and_confirms() {
    let mut pane = loaded_pane();
    pane.open_dialog();
    let mut form = ConfigForm::new(&None);
    form.var_name = "limit".to_string();
    form.var_value = "100".to_string();
    let call = pane.submit(form.to_add_req().map(add_config)).unwrap();
    assert_eq!(call.method, HttpMethod::Post);
    assert_eq!(call.resource, Resource::Config);
    assert_eq!(call.op, ApiOp::Insert);
    let before = pane.latest_load;
    let ticket = pane.finish_mutation(Mutation::AddConfig, Ok(()));
    assert_eq!(ticket, Some(before + 1));
    assert_eq!(pane.latest_load, before + 1);
    assert!(pane.loading);
    assert!(!pane.dialog_open);
    let fb = pane.feedback.clone().unwrap();
    assert_eq!(fb.kind, FeedbackKind::Success);
    assert_eq!(fb.text, "新增配置成功。");
}

#[test]
fn delete_failure_keeps_rows_and_shows_error() {
    let mut pane = loaded_pane();
    let rows_before = pane.rows.clone();
    let ticket = pane.finish_mutation(Mutation::DeleteConfig, Err("server down".to_string()));
    assert!(ticket.is_none());
    assert_eq!(pane.rows, rows_before);
    let fb = pane.feedback.clone().unwrap();
    assert_eq!(fb.kind, FeedbackKind::Error);
    assert_eq!(fb.text, "server down");
}

#[test]
fn delete_success_of_config_does_not_reload() {
    let mut pane = loaded_pane();
    let before = pane.latest_load;
    assert!(pane.finish_mutation(Mutation::DeleteConfig, Ok(())).is_none());
    assert_eq!(pane.latest_load, before);
    assert_eq!(pane.feedback.clone().unwrap().text, "删除成功");
}

#[test]
fn stale_load_answer_is_dropped() {
    let mut pane: Pane<ConfigItem> = Pane::new();
    let first = pane.begin_load();
    let second = pane.begin_load();
    assert!(pane.finish_load(second, Ok(vec![row(2)])));
    assert!(!pane.finish_load(first, Ok(vec![row(1)])));
    assert_eq!(pane.rows, Cache::Ready(vec![row(2)]));
    assert!(!pane.loading);
    let third = pane.begin_load();
    assert!(pane.finish_load(third, Err("timeout".to_string())));
    assert_eq!(pane.rows, Cache::Failed("timeout".to_string()));
}

#[test]
fn feedback_expires_only_for_its_own_id() {
    let mut pane: Pane<ConfigItem> = Pane::new();
    pane.finish_mutation(Mutation::SetRelation, Ok(()));
    let old_id = pane.feedback.clone().unwrap().id;
    assert!(!pane.submit_register(Err(RegisterRefusal::PasswordMismatch)));
    let new_id = pane.feedback.clone().unwrap().id;
    assert_ne!(old_id, new_id);
    pane.expire_feedback(old_id);
    assert_eq!(pane.feedback.clone().unwrap().kind, FeedbackKind::Warning);
    pane.expire_feedback(new_id);
    assert!(pane.feedback.is_none());
}

#[test]
fn success_messages_per_operation() {
    assert_eq!(Mutation::UpdateDict.success_message(), "修改字典成功。");
    assert_eq!(Mutation::AddRole.success_message(), "保存角色成功。");
    assert!(Mutation::AddDictItem.refetches());
    assert!(!Mutation::ResetPassword.refetches());
}

#[test]
fn status_button_flips_status() {
    assert_eq!(status_action(YesNo::Yes), (Mutation::DisableUser, YesNo::No));
    assert_eq!(status_action(YesNo::No), (Mutation::EnableUser, YesNo::Yes));
    assert_eq!(status_button_label(YesNo::Yes), "禁用");
    assert_eq!(status_button_label(YesNo::No), "启用");
}

#[test]
fn delete_needs_confirmation() {
    assert!(tower_management::pane::confirm_delete(false, 3).is_none());
    let call = tower_management::pane::confirm_delete(true, 3).unwrap();
    assert_eq!(call.method, HttpMethod::Delete);
    assert_eq!(call.op, ApiOp::DeleteById(3));
}

#[test]
fn register_with_mismatched_passwords_warns() {
    let mut pane: Pane<ConfigItem> = Pane::new();
    pane.open_dialog();
    let mut form = RegisterForm::new();
    form.username = "alice01".to_string();
    form.nickname = "Alice".to_string();
    form.password = "abc12!".to_string();
    form.password2 = "abc12?".to_string();
    let checked = form.check();
    assert_eq!(checked, Err(RegisterRefusal::PasswordMismatch));
    assert!(!pane.submit_register(checked));
    let fb = pane.feedback.clone().unwrap();
    assert_eq!(fb.kind, FeedbackKind::Warning);
    assert_eq!(fb.text, "两次输入的密码不一致");
    assert!(pane.dialog_open);
    assert!(pane.hint.is_none());
}

#[test]
fn register_with_blank_passwords_warns() {
    let mut pane: Pane<ConfigItem> = Pane::new();
    let form = RegisterForm::new();
    assert!(!pane.submit_register(form.check()));
    assert_eq!(pane.feedback.clone().unwrap().text, "两次输入的密码不一致");
}

#[test]
fn register_field_refusals_become_hints() {
    let mut pane: Pane<ConfigItem> = Pane::new();
    let mut form = RegisterForm::new();
    form.username = "bob".to_string();
    form.nickname = "Bobby".to_string();
    form.password = "abc12!".to_string();
    form.password2 = "abc12!".to_string();
    let checked = form.check();
    assert_eq!(
        checked,
        Err(RegisterRefusal::Field(FormError { field: FieldName::Username, error: FieldError::TooShort }))
    );
    assert!(!pane.submit_register(checked));
    assert!(pane.feedback.is_none());
    assert_eq!(
        pane.hint,
        Some(FormError { field: FieldName::Username, error: FieldError::TooShort })
    );
    form.username = "bobby01".to_string();
    form.nickname = "B".repeat(13);
    assert_eq!(
        form.check(),
        Err(RegisterRefusal::Field(FormError { field: FieldName::Nickname, error: FieldError::TooLong }))
    );
    form.nickname = "Bobby".to_string();
    form.password = "abcdef1".to_string();
    form.password2 = "abcdef1".to_string();
    assert_eq!(
        form.check(),
        Err(RegisterRefusal::Field(FormError { field: FieldName::Password, error: FieldError::Weak }))
    );
    form.password = "abc 12".to_string();
    form.password2 = "abc 12".to_string();
    assert_eq!(
        form.check(),
        Err(RegisterRefusal::Field(FormError { field: FieldName::Password, error: FieldError::Weak }))
    );
    form.password = "abc12!".to_string();
    form.password2 = "abc12!".to_string();
    assert_eq!(form.check(), Ok(()));
    assert!(pane.submit_register(Ok(())));
    assert!(pane.hint.is_none());
}

#[test]
fn register_success_closes_dialog_without_reload() {
    let mut pane: Pane<ConfigItem> = Pane::new();
    pane.open_dialog();
    assert!(pane.finish_mutation(Mutation::Register, Ok(())).is_none());
    assert!(!pane.dialog_open);
    assert_eq!(pane.feedback.clone().unwrap().text, "注册成功");
}

#[test]
fn register_request_carries_names_and_default_avatar() {
    let mut form = RegisterForm::new();
    form.username = "carol01".to_string();
    form.nickname = "Carol".to_string();
    form.password = "pa55!word".to_string();
    form.password2 = "pa55!word".to_string();
    let req = form.to_req().unwrap();
    assert_eq!(req.username, "carol01");
    assert_eq!(req.nickname, "Carol");
    assert_eq!(req.password, "pa55!word");
    assert_eq!(req.avatar, 0);
    form.password2 = "other".to_string();
    assert_eq!(form.to_req(), Err(RegisterRefusal::PasswordMismatch));
}
