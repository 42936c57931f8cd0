use tower_management::api::{
    add_config, delete_config, get_dict_items, get_user_groups, get_user_vip_level,
    save_user_vip_level, set_relation, ApiOp, HttpMethod, RequestBody, Resource,
};
use tower_management::forms::{
    checked_ids, mark_checked, passwords_match, relation_req, ConfigForm, ConfigFormData, DictForm, EntryForm,
    FieldName, FormError, ItemForm, RelationPicker, UserQuery, VipLevelForm,
};
use tower_management::model::{ConfigItem, DictItem, YesNo};
use tower_management::text::{
    check_text, char_count_upto, is_strong_password, is_white_space, trim_to_option, trimmed, FieldError,
};

fn config_item() -> ConfigItem {
    ConfigItem {
        id: 7,
        app_id: "TowerServer".to_string(),
        app_version: Some("1.0".to_string()),
        var_name: "limit".to_string(),
        var_value: "100".to_string(),
        public: YesNo::No,
        remark: None,
        status: YesNo::Yes,
        created: 1,
        updated: None,
    }
}

#[test]
fn trim_to_option_trims_and_drops_blank() {
    assert_eq!(trim_to_option("  note \n"), Some("note".to_string()));
    assert_eq!(trim_to_option("   "), None);
    assert_eq!(trim_to_option(""), None);
    assert_eq!(trimmed("  bob "), "bob");
    assert_eq!(trimmed("a b"), "a b");
    assert_eq!(trimmed("\t\u{3000}x\u{3000}"), "x");
}

#[test]
fn char_count_counts_characters_not_bytes() {
    assert_eq!(char_count_upto("配置名称", 10), 4);
    assert_eq!(char_count_upto("abcdef", 3), 3);
    assert_eq!(char_count_upto("", 3), 0);
}

#[test]
fn check_text_gives_each_error() {
    assert_eq!(check_text("  ", true, 1, Some(50)), Err(FieldError::Required));
    assert_eq!(check_text("abc", true, 6, None), Err(FieldError::TooShort));
    assert_eq!(check_text(&"x".repeat(51), true, 1, Some(50)), Err(FieldError::TooLong));
    assert_eq!(check_text(&"x".repeat(50), true, 1, Some(50)), Ok(()));
    assert_eq!(check_text("", false, 0, Some(500)), Ok(()));
}

#[test]
fn config_form_with_empty_name_is_refused() {
    let form = ConfigForm::new(&None);
    assert_eq!(form.app_id, "TowerServer");
    let err = form.to_add_req().unwrap_err();
    assert_eq!(err, FormError { field: FieldName::VarName, error: FieldError::Required });
}

#[test]
fn config_form_builds_add_request() {
    let mut form = ConfigForm::new(&None);
    form.var_name = "limit".to_string();
    form.var_value = "100".to_string();
    form.remark = "  ".to_string();
    let req = form.to_add_req().unwrap();
    assert_eq!(req.app_id, "TowerServer");
    assert_eq!(req.var_name, "limit");
    assert_eq!(req.var_value, "100");
    assert_eq!(req.public, YesNo::Yes);
    assert_eq!(req.status, YesNo::Yes);
    assert_eq!(req.remark, None);
    let call = add_config(req);
    assert_eq!(call.method, HttpMethod::Post);
    assert_eq!(call.resource, Resource::Config);
    assert_eq!(call.op, ApiOp::Insert);
}

#[test]
fn config_form_from_clone_and_update() {
    let item = config_item();
    let form = ConfigForm::new(&Some(item.clone()));
    assert_eq!(form.var_name, "limit");
    assert_eq!(form.remark, "");
    assert_eq!(form.public, YesNo::No);
    let mut edit = ConfigForm::edit(&item);
    edit.remark = " keep ".to_string();
    let req = edit.to_update_req(item.id).unwrap();
    assert_eq!(req.id, 7);
    assert_eq!(req.app_version.as_deref(), Some("1.0"));
    assert_eq!(req.remark.as_deref(), Some("keep"));
    edit.var_value = "v".repeat(51);
    let err = edit.to_update_req(7).unwrap_err();
    assert_eq!(err, FormError { field: FieldName::VarValue, error: FieldError::TooLong });
}

#[test]
fn config_query_resets_to_default() {
    let mut q = ConfigFormData::new();
    q.var_name = "x".to_string();
    q.status = Some(YesNo::No);
    q.app_id = "Other".to_string();
    let req = q.to_req();
    assert_eq!(req.var_name, "x");
    assert_eq!(req.status, Some(YesNo::No));
    q.reset();
    assert_eq!(q, ConfigFormData::new());
    assert_eq!(q.app_id, "TowerServer");
}

#[test]
fn dict_form_trims_parent_and_checks_code() {
    let mut form = DictForm::new(&Some("root".to_string()));
    assert_eq!(form.parent_code, "root");
    assert_eq!(
        form.to_req().unwrap_err(),
        FormError { field: FieldName::Code, error: FieldError::Required }
    );
    form.dict_code = "c1".to_string();
    form.dict_name = "Colour".to_string();
    let req = form.to_req().unwrap();
    assert_eq!(req.parent_code.as_deref(), Some("root"));
    let mut top = DictForm::new(&None);
    top.dict_code = "c2".to_string();
    top.dict_name = "Size".to_string();
    top.parent_code = "   ".to_string();
    assert_eq!(top.to_req().unwrap().parent_code, None);
}

#[test]
fn item_form_builds_requests() {
    let mut form = ItemForm::new(&"colour".to_string());
    assert_eq!(
        form.to_add_req().unwrap_err(),
        FormError { field: FieldName::Name, error: FieldError::Required }
    );
    form.item_name = "red".to_string();
    assert_eq!(
        form.to_add_req().unwrap_err(),
        FormError { field: FieldName::Value, error: FieldError::Required }
    );
    form.item_value = "1".to_string();
    let req = form.to_add_req().unwrap();
    assert_eq!(req.dict_code, "colour");
    let item = DictItem {
        id: 3,
        dict_code: "colour".to_string(),
        item_name: "blue".to_string(),
        item_value: "2".to_string(),
        public: YesNo::Yes,
        status: YesNo::No,
        remark: Some("r".to_string()),
        created: 0,
        updated: Some(5),
    };
    let edit = ItemForm::edit(&item);
    let up = edit.to_update_req(item.id).unwrap();
    assert_eq!(up.id, 3);
    assert_eq!(up.item_name, "blue");
    assert_eq!(up.status, YesNo::No);
    assert_eq!(up.remark.as_deref(), Some("r"));
}

#[test]
fn entry_form_needs_six_characters() {
    let mut form = EntryForm::new();
    form.id = "admin".to_string();
    form.name = "administrators".to_string();
    assert_eq!(
        form.to_req().unwrap_err(),
        FormError { field: FieldName::Code, error: FieldError::TooShort }
    );
    form.id = "admins".to_string();
    let req = form.to_req().unwrap();
    assert_eq!(req.id, "admins");
    assert_eq!(req.remark, None);
    form.remark = "r".repeat(501);
    assert_eq!(
        form.to_req().unwrap_err(),
        FormError { field: FieldName::Remark, error: FieldError::TooLong }
    );
}

#[test]
fn user_query_trims_names() {
    let mut q = UserQuery::new();
    q.username = "  alice ".to_string();
    q.status = Some(YesNo::Yes);
    let req = q.to_req(2, 20);
    assert_eq!(req.page, 2);
    assert_eq!(req.size, 20);
    assert_eq!(req.query.username, "alice");
    assert_eq!(req.query.nickname, "");
}

#[test]
fn vip_and_relation_requests_need_a_user() {
    let form = VipLevelForm { vip_level: 2, months: 3, days: 0 };
    assert!(form.to_req(&None).is_none());
    let req = form.to_req(&Some("u1".to_string())).unwrap();
    assert_eq!(req.user_id, "u1");
    assert_eq!(req.months, 3);
    let call = save_user_vip_level(req);
    assert!(call.binary);
    assert!(relation_req(&None, vec!["g".to_string()]).is_none());
    let rel = relation_req(&Some("u1".to_string()), vec!["g1".to_string(), "g2".to_string()]).unwrap();
    let call = set_relation(Resource::UserGroup, rel);
    assert_eq!(call.method, HttpMethod::Put);
    assert_eq!(call.op, ApiOp::Batch);
}

#[test]
fn lookups_without_selection_make_no_call() {
    assert!(get_dict_items(None).is_none());
    let call = get_dict_items(Some("colour".to_string())).unwrap();
    assert_eq!(call.body, RequestBody::DictItemList("colour".to_string()));
    assert!(get_user_vip_level(None).is_none());
    let vip = get_user_vip_level(Some("u9".to_string())).unwrap();
    assert_eq!(vip.op, ApiOp::LoadById("u9".to_string()));
    let groups = get_user_groups(Some("u9".to_string())).unwrap();
    assert_eq!(groups.method, HttpMethod::Get);
    assert_eq!(groups.resource, Resource::UserGroup);
    let del = delete_config(4);
    assert_eq!(del.method, HttpMethod::Delete);
    assert_eq!(del.op, ApiOp::DeleteById(4));
}

#[test]
fn mark_checked_ticks_what_the_user_has() {
    let all = vec!["a".to_string(), "b".to_string(), "c".to_string()];
    let mine = vec!["c".to_string(), "a".to_string()];
    assert_eq!(mark_checked(&all, &mine), vec![true, false, true]);
    assert_eq!(mark_checked(&all, &vec![]), vec![false, false, false]);
}

#[test]
fn passwords_must_match_and_be_filled() {
    assert!(passwords_match(&"abc1!x".to_string(), &"abc1!x".to_string()));
    assert!(!passwords_match(&"abc1!x".to_string(), &"abc1!y".to_string()));
    assert!(!passwords_match(&"".to_string(), &"".to_string()));
}

#[test]
fn empty_required_fields_are_refused_on_every_form() {
    let mut dict = DictForm::new(&None);
    dict.dict_name = "n".to_string();
    assert_eq!(
        dict.to_req().unwrap_err(),
        FormError { field: FieldName::Code, error: FieldError::Required }
    );
    let mut cfg = ConfigForm::new(&None);
    cfg.var_name = "limit".to_string();
    assert_eq!(
        cfg.to_update_req(1).unwrap_err(),
        FormError { field: FieldName::VarValue, error: FieldError::Required }
    );
    let entry = EntryForm::new();
    assert_eq!(
        entry.to_req().unwrap_err(),
        FormError { field: FieldName::Code, error: FieldError::Required }
    );
}

#[test]
fn strong_password_needs_digit_letter_and_symbol() {
    assert!(is_strong_password("abc12!"));
    assert!(is_strong_password("密码a1"));
    assert!(!is_strong_password("abcdef"));
    assert!(!is_strong_password("abc 12"));
    assert!(!is_strong_password("123!!!"));
}

#[test]
fn checked_ids_keep_ticked_targets_in_order() {
    let all = vec!["a".to_string(), "b".to_string(), "c".to_string()];
    assert_eq!(checked_ids(&all, &vec![true, false, true]), vec!["a", "c"]);
    assert_eq!(checked_ids(&all, &vec![false, true]), vec!["b"]);
    assert!(checked_ids(&all, &vec![]).is_empty());
}

#[test]
fn unchanged_relation_save_sends_what_the_user_has() {
    let apps = vec!["web".to_string(), "server".to_string(), "admin".to_string()];
    let mine = vec!["admin".to_string(), "web".to_string(), "gone".to_string()];
    let mut picker = RelationPicker::new(apps, &mine);
    assert_eq!(picker.ticks, vec![true, false, true]);
    let req = picker.save_req(&Some("u1".to_string())).unwrap();
    assert_eq!(req.user_id, "u1");
    assert_eq!(req.target_ids, vec!["web", "admin"]);
    picker.toggle(0);
    picker.toggle(1);
    picker.toggle(9);
    assert_eq!(picker.checked_ids(), vec!["server", "admin"]);
    assert!(picker.save_req(&None).is_none());
}

#[test]
fn white_space_matches_std() {
    for code in 0u32..0x3100 {
        if let Some(c) = char::from_u32(code) {
            assert_eq!(is_white_space(c), c.is_whitespace(), "U+{:04X}", code);
        }
    }
    assert!(!is_white_space('\u{feff}'));
}
